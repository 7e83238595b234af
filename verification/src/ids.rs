//! Menu identifiers: the encoding of catalog entries into click identifiers
//! and the decoding of a click identifier back into a version label.
//!
//! An identifier is `prefix + "version_" + label`.  Decoding finds the first
//! occurrence of the separator tag `"version_"` and returns everything after
//! it; the round-trip lemma at the bottom shows that this is lossless.

use vstd::prelude::*;

verus! {

/// The separator tag that splits a category prefix from a version label.
pub open spec fn version_tag() -> Seq<char> {
    "version_"@
}

/// The identifier of the quit entry.
pub open spec fn quit_id() -> Seq<char> {
    "quit"@
}

/// The identifier that an entry for `version` under a category with
/// `prefix` carries.
pub open spec fn encoded_id(prefix: Seq<char>, version: Seq<char>) -> Seq<char> {
    prefix + version_tag() + version
}

/// `pat` occurs in `s` starting at position `i`.
pub open spec fn occurs_at(s: Seq<char>, pat: Seq<char>, i: int) -> bool {
    0 <= i && i + pat.len() <= s.len() && s.subrange(i, i + pat.len() as int) == pat
}

/// `pat` occurs somewhere in `s`.
pub open spec fn occurs(s: Seq<char>, pat: Seq<char>) -> bool {
    exists|i: int| occurs_at(s, pat, i)
}

/// `i` is the position of the first occurrence of `pat` in `s`.
pub open spec fn first_occurrence(s: Seq<char>, pat: Seq<char>, i: int) -> bool {
    occurs_at(s, pat, i) && forall|j: int| 0 <= j < i ==> !occurs_at(s, pat, j)
}

/// The position of the first occurrence of `pat` in `s` (meaningful only
/// when `occurs(s, pat)` holds).
pub open spec fn first_pos(s: Seq<char>, pat: Seq<char>) -> int {
    choose|i: int| first_occurrence(s, pat, i)
}

/// What decoding hands back when the separator tag first occurs at `i`:
/// everything after that occurrence of the tag.
pub open spec fn decoded_version(s: Seq<char>, i: int) -> Seq<char> {
    s.subrange(i + version_tag().len() as int, s.len() as int)
}

/// Two firsts are the same first.
proof fn lemma_first_occurrence_unique(s: Seq<char>, pat: Seq<char>, i: int, j: int)
    requires
        first_occurrence(s, pat, i),
        first_occurrence(s, pat, j),
    ensures
        i == j,
{
    if i < j {
        assert(!occurs_at(s, pat, i));
    } else if j < i {
        assert(!occurs_at(s, pat, j));
    }
}

/// `first_pos` is pinned down by any witness of `first_occurrence`.
pub proof fn lemma_first_pos(s: Seq<char>, pat: Seq<char>, i: int)
    requires
        first_occurrence(s, pat, i),
    ensures
        first_pos(s, pat) == i,
{
    let j = choose|j: int| first_occurrence(s, pat, j);
    lemma_first_occurrence_unique(s, pat, i, j);
}

/// Position of the first occurrence of `pat` in `s`, or `None` when `pat`
/// does not occur in `s`.
pub fn find_sub(s: &str, pat: &str) -> (r: Option<usize>)
    ensures
        match r {
            Some(i) => occurs(s@, pat@) && first_occurrence(s@, pat@, i as int),
            None => !occurs(s@, pat@),
        },
{
    let n: usize = s.unicode_len();
    let m: usize = pat.unicode_len();
    if m == 0 {
        proof {
            assert(s@.subrange(0, 0) =~= pat@);
            assert(occurs_at(s@, pat@, 0));
        }
        return Some(0);
    }
    if m > n {
        return None;
    }
    let mut i: usize = 0;
    while i <= n - m
        invariant
            1 <= m <= n,
            n == s@.len(),
            m == pat@.len(),
            i <= n - m + 1,
            forall|j: int| 0 <= j < i as int ==> !occurs_at(s@, pat@, j),
        decreases n - m + 1 - i,
    {
        let mut k: usize = 0;
        let mut same: bool = true;
        while same && k < m
            invariant
                m <= n,
                n == s@.len(),
                m == pat@.len(),
                i <= n - m,
                k <= m,
                same ==> forall|l: int| 0 <= l < k as int ==> s@[i as int + l] == pat@[l],
                !same ==> !occurs_at(s@, pat@, i as int),
            decreases (if same { 1int } else { 0int }), m - k,
    {
            if s.get_char(i + k) == pat.get_char(k) {
                k = k + 1;
            } else {
                proof {
                    if occurs_at(s@, pat@, i as int) {
                        assert(s@.subrange(i as int, i as int + m as int)[k as int] == pat@[k as int]);
                    }
                }
                same = false;
            }
        }
        if same {
            proof {
                assert forall|l: int| 0 <= l < m as int implies s@.subrange(
                    i as int,
                    i as int + m as int,
                )[l] == pat@[l] by {
                    assert(s@[i as int + l] == pat@[l]);
                }
                assert(s@.subrange(i as int, i as int + m as int) =~= pat@);
                assert(occurs_at(s@, pat@, i as int));
            }
            return Some(i);
        }
        i = i + 1;
    }
    proof {
        assert forall|j: int| !occurs_at(s@, pat@, j) by {
            if 0 <= j < i as int {
                assert(!occurs_at(s@, pat@, j));
            } else if j >= i as int {
                assert(j + pat@.len() > s@.len());
            }
        }
    }
    None
}

/// The separator tag as a string slice.
pub fn menu_id_version_prefix() -> (r: &'static str)
    ensures
        r@ == version_tag(),
{
    "version_"
}

/// The identifier of the quit entry as a string slice.
pub fn menu_id_quit() -> (r: &'static str)
    ensures
        r@ == quit_id(),
{
    "quit"
}

/// The identifier of the disabled entry that displays the current version.
pub fn menu_id_current_version() -> (r: &'static str)
    ensures
        r@ == "current_version"@,
{
    "current_version"
}

/// The identifier of the entry for `version` in the degenerate catalog
/// without category prefixes: the separator tag followed by the label.
pub fn gen_version_menu_id(version: &str) -> (r: String)
    ensures
        r@ == version_tag() + version@,
{
    let id = String::from_str("version_");
    id.concat(version)
}

/// The identifier of the entry for `version` under the category with
/// `prefix`.
pub fn encode_menu_id(prefix: &str, version: &str) -> (r: String)
    ensures
        r@ == encoded_id(prefix@, version@),
{
    let id = String::from_str(prefix).concat("version_").concat(version);
    proof {
        assert((prefix@ + "version_"@) + version@ =~= encoded_id(prefix@, version@));
    }
    id
}

/// The version label encoded in `menu_id`: everything after the first
/// occurrence of the separator tag, or `None` when the tag does not occur.
pub fn get_version_from_menu_id(menu_id: &str) -> (r: Option<String>)
    ensures
        match r {
            Some(v) => occurs(menu_id@, version_tag()) && v@ == decoded_version(
                menu_id@,
                first_pos(menu_id@, version_tag()),
            ),
            None => !occurs(menu_id@, version_tag()),
        },
{
    match find_sub(menu_id, "version_") {
        None => None,
        Some(idx) => {
            proof {
                lemma_first_pos(menu_id@, version_tag(), idx as int);
                reveal_strlit("version_");
            }
            let n: usize = menu_id.unicode_len();
            let tail = menu_id.substring_char(idx + 8, n);
            Some(String::from_str(tail))
        },
    }
}

/// A category prefix is valid when no occurrence of the separator tag
/// begins inside the prefix once the tag is appended to it; decoding an
/// identifier built over such a prefix finds the appended tag first.
pub open spec fn valid_prefix(prefix: Seq<char>) -> bool {
    forall|j: int| 0 <= j < prefix.len() ==> !occurs_at(prefix + version_tag(), version_tag(), j)
}

/// A prefix without the character `'v'` is valid: the separator tag starts
/// with `'v'`, so no occurrence of it can begin inside such a prefix.
pub proof fn lemma_prefix_without_v_is_valid(prefix: Seq<char>)
    requires
        forall|j: int| 0 <= j < prefix.len() ==> prefix[j] != 'v',
    ensures
        valid_prefix(prefix),
{
    reveal_strlit("version_");
    assert forall|j: int| 0 <= j < prefix.len() implies !occurs_at(
        prefix + version_tag(),
        version_tag(),
        j,
    ) by {
        if occurs_at(prefix + version_tag(), version_tag(), j) {
            assert((prefix + version_tag()).subrange(j, j + version_tag().len() as int)[0]
                == version_tag()[0]);
            assert((prefix + version_tag())[j] == 'v');
            assert(prefix[j] == 'v');
        }
    }
}

/// Round trip: an identifier built from a valid prefix and a version label
/// decodes back to exactly that label.  The first occurrence of the
/// separator tag in the identifier is the appended one, and what follows it
/// is the label.
pub proof fn lemma_round_trip(prefix: Seq<char>, version: Seq<char>)
    requires
        valid_prefix(prefix),
        !occurs(version, version_tag()),
    ensures
        occurs(encoded_id(prefix, version), version_tag()),
        first_occurrence(encoded_id(prefix, version), version_tag(), prefix.len() as int),
        first_pos(encoded_id(prefix, version), version_tag()) == prefix.len() as int,
        decoded_version(encoded_id(prefix, version), prefix.len() as int) == version,
{
    let s = encoded_id(prefix, version);
    let t = version_tag();
    let p = prefix.len() as int;
    assert(s.subrange(p, p + t.len() as int) =~= t);
    assert(occurs_at(s, t, p));
    assert forall|j: int| 0 <= j < p implies !occurs_at(s, t, j) by {
        if occurs_at(s, t, j) {
            assert(s.subrange(j, j + t.len() as int) =~= (prefix + t).subrange(
                j,
                j + t.len() as int,
            ));
            assert(occurs_at(prefix + t, t, j));
        }
    }
    lemma_first_pos(s, t, p);
    assert(decoded_version(s, p) =~= version);
}

/// Whether `pat` occurs in `s` as a contiguous run of characters.
pub fn str_contains(s: &str, pat: &str) -> (r: bool)
    ensures
        r == occurs(s@, pat@),
{
    match find_sub(s, pat) {
        Some(_) => true,
        None => false,
    }
}

/// Whether two string slices hold the same characters.
pub fn str_eq(a: &str, b: &str) -> (r: bool)
    ensures
        r == (a@ == b@),
{
    let n: usize = a.unicode_len();
    if n != b.unicode_len() {
        return false;
    }
    let mut i: usize = 0;
    while i < n
        invariant
            n == a@.len(),
            n == b@.len(),
            i <= n,
            forall|j: int| 0 <= j < i as int ==> a@[j] == b@[j],
        decreases n - i,
    {
        if a.get_char(i) != b.get_char(i) {
            return false;
        }
        i = i + 1;
    }
    proof {
        assert(a@ =~= b@);
    }
    true
}

} // verus!
