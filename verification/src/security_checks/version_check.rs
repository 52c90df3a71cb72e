//! Semantic-version comparison and version-field extraction for the
//! monotonicity check. A version string is a dot-delimited sequence of
//! decimal segments; comparison zero-pads the shorter sequence and orders
//! the padded tuples lexicographically.

use vstd::prelude::*;

use crate::text::{find_from, find_substring, is_digit, lemma_find_from_some};

verus! {

/// The dot-delimited segments of `s`, in order. The empty string has one
/// empty segment, and every dot opens a new (possibly empty) segment.
pub open spec fn segments(s: Seq<char>) -> Seq<Seq<char>>
    decreases s.len(),
{
    if s.len() == 0 {
        seq![Seq::empty()]
    } else if s.last() == '.' {
        segments(s.drop_last()).push(Seq::empty())
    } else {
        let r = segments(s.drop_last());
        r.update(r.len() - 1, r.last().push(s.last()))
    }
}

/// A string always splits into at least one segment.
pub proof fn lemma_segments_len(s: Seq<char>)
    ensures
        segments(s).len() >= 1,
    decreases s.len(),
{
    if s.len() != 0 {
        lemma_segments_len(s.drop_last());
    }
}

/// The numeric value of a digit character (and zero elsewhere).
pub open spec fn digit_val(c: char) -> int {
    if is_digit(c) {
        c as int - 48
    } else {
        0
    }
}

/// The number a segment's digits spell out.
pub open spec fn seg_num(s: Seq<char>) -> int
    decreases s.len(),
{
    if s.len() == 0 {
        0
    } else {
        seg_num(s.drop_last()) * 10 + digit_val(s.last())
    }
}

pub proof fn lemma_seg_num_nonneg(s: Seq<char>)
    ensures
        seg_num(s) >= 0,
    decreases s.len(),
{
    if s.len() != 0 {
        lemma_seg_num_nonneg(s.drop_last());
    }
}

/// A segment that parses as a non-negative integer no larger than `u32::MAX`:
/// non-empty and made of digits alone.
pub open spec fn valid_segment(s: Seq<char>) -> bool {
    &&& s.len() > 0
    &&& forall|i: int| 0 <= i < s.len() ==> is_digit(s[i])
    &&& seg_num(s) <= u32::MAX
}

/// A well-formed version string: every segment is valid.
pub open spec fn valid_version(s: Seq<char>) -> bool {
    forall|k: int| 0 <= k < segments(s).len() ==> valid_segment(#[trigger] segments(s)[k])
}

/// The integer tuple a valid version string denotes.
pub open spec fn version_nums(s: Seq<char>) -> Seq<int> {
    segments(s).map_values(|seg: Seq<char>| seg_num(seg))
}

/// A segment that no continuation can repair: it already holds a non-digit,
/// or its value already exceeds `u32::MAX`.
pub open spec fn doomed_segment(s: Seq<char>) -> bool {
    ||| exists|i: int| 0 <= i < s.len() && !is_digit(#[trigger] s[i])
    ||| seg_num(s) > u32::MAX
}

pub proof fn lemma_doomed_push(s: Seq<char>, c: char)
    requires
        doomed_segment(s),
    ensures
        doomed_segment(s.push(c)),
{
    assert(s.push(c).drop_last() =~= s);
    if exists|i: int| 0 <= i < s.len() && !is_digit(#[trigger] s[i]) {
        let i = choose|i: int| 0 <= i < s.len() && !is_digit(#[trigger] s[i]);
        assert(s.push(c)[i] == s[i]);
    } else {
        lemma_seg_num_nonneg(s);
        assert(seg_num(s.push(c)) == seg_num(s) * 10 + digit_val(c));
    }
}

pub proof fn lemma_doomed_invalid(s: Seq<char>)
    requires
        doomed_segment(s),
    ensures
        !valid_segment(s),
{
}

/// Some segment of the prefix `p` can no longer become valid, whatever
/// characters follow: a completed segment is invalid, or the still-open last
/// segment is doomed.
pub open spec fn prefix_bad(p: Seq<char>) -> bool {
    exists|k: int|
        0 <= k < segments(p).len() && (if k < segments(p).len() - 1 {
            !valid_segment(#[trigger] segments(p)[k])
        } else {
            doomed_segment(segments(p)[k])
        })
}

/// Whatever one character extends a bad prefix to is still a bad prefix.
proof fn lemma_prefix_bad_push(p: Seq<char>, c: char)
    requires
        prefix_bad(p),
    ensures
        prefix_bad(p.push(c)),
{
    lemma_segments_len(p);
    let k = choose|k: int|
        0 <= k < segments(p).len() && (if k < segments(p).len() - 1 {
            !valid_segment(#[trigger] segments(p)[k])
        } else {
            doomed_segment(segments(p)[k])
        });
    let p2 = p.push(c);
    assert(p2.drop_last() =~= p);
    assert(p2.last() == c);
    if c == '.' {
        assert(segments(p2) == segments(p).push(Seq::<char>::empty()));
        if k < segments(p).len() - 1 {
            assert(segments(p2)[k] == segments(p)[k]);
        } else {
            lemma_doomed_invalid(segments(p)[k]);
            assert(segments(p2)[k] == segments(p)[k]);
        }
        assert(k < segments(p2).len() - 1);
    } else {
        let r = segments(p);
        assert(segments(p2) == r.update(r.len() - 1, r.last().push(c)));
        if k < r.len() - 1 {
            assert(segments(p2)[k] == r[k]);
        } else {
            lemma_doomed_push(r[k], c);
            assert(segments(p2)[k] == r.last().push(c));
        }
    }
}

/// A bad prefix of the whole string means the whole string is not a valid
/// version.
proof fn lemma_prefix_bad_invalid(s: Seq<char>)
    requires
        prefix_bad(s),
    ensures
        !valid_version(s),
{
    let k = choose|k: int|
        0 <= k < segments(s).len() && (if k < segments(s).len() - 1 {
            !valid_segment(#[trigger] segments(s)[k])
        } else {
            doomed_segment(segments(s)[k])
        });
    if k == segments(s).len() - 1 {
        lemma_doomed_invalid(segments(s)[k]);
    }
}

/// Parses a version string into its segment values: `Some` exactly on valid
/// version strings, with the segment numbers in order.
pub fn parse_version(s: &str) -> (r: Option<Vec<u32>>)
    ensures
        match r {
            Some(v) => {
                &&& valid_version(s@)
                &&& v@.len() == segments(s@).len()
                &&& forall|k: int| 0 <= k < v@.len() ==> v@[k] as int == seg_num(segments(s@)[k])
            },
            None => !valid_version(s@),
        },
{
    let n = s.unicode_len();
    let mut result: Vec<u32> = Vec::new();
    let mut value: u64 = 0;
    let mut cur_len: usize = 0;
    let mut ok: bool = true;
    let mut j: usize = 0;
    proof {
        assert(s@.subrange(0, 0) =~= Seq::<char>::empty());
    }
    while j < n
        invariant
            j <= n,
            n == s@.len(),
            ok ==> {
                let p = s@.subrange(0, j as int);
                let segs = segments(p);
                let cur = segs.last();
                &&& segs.len() >= 1
                &&& result@.len() == segs.len() - 1
                &&& forall|k: int|
                    0 <= k < result@.len() ==> valid_segment(#[trigger] segs[k]) && result@[k] as int
                        == seg_num(segs[k])
                &&& cur.len() == cur_len
                &&& cur_len <= j
                &&& forall|i: int| 0 <= i < cur.len() ==> is_digit(#[trigger] cur[i])
                &&& seg_num(cur) == value as int
                &&& value <= u32::MAX as u64
            },
            !ok ==> prefix_bad(s@.subrange(0, j as int)),
        decreases n - j,
    {
        let ghost p = s@.subrange(0, j as int);
        let ghost p2 = s@.subrange(0, j + 1);
        proof {
            assert(p2.drop_last() =~= p);
            assert(p2.last() == s@[j as int]);
            lemma_segments_len(p);
        }
        let c = s.get_char(j);
        if c == '.' {
            proof {
                assert(segments(p2) == segments(p).push(Seq::<char>::empty()));
            }
            if ok {
                if cur_len == 0 {
                    ok = false;
                    proof {
                        let segs2 = segments(p2);
                        let k = segs2.len() - 2;
                        assert(segs2[k] == segments(p).last());
                        assert(!valid_segment(segs2[k]));
                        assert(prefix_bad(p2));
                    }
                } else {
                    result.push(value as u32);
                    proof {
                        let segs = segments(p);
                        let segs2 = segments(p2);
                        assert(forall|k: int|
                            0 <= k < segs.len() ==> segs2[k] == #[trigger] segs[k]);
                        assert(segs2.last() =~= Seq::<char>::empty());
                        assert(valid_segment(segs[segs.len() - 1]));
                    }
                }
            } else {
                proof {
                    lemma_prefix_bad_push(p, s@[j as int]);
                    assert(p2 =~= p.push(s@[j as int]));
                    assert(prefix_bad(p2));
                }
            }
            value = 0;
            cur_len = 0;
        } else {
            let u = c as u32;
            if ok {
                if u >= 48 && u <= 57 {
                    let d = u - 48;
                    let new_value = value * 10 + d as u64;
                    proof {
                        let segs = segments(p);
                        let cur = segs.last();
                        assert(segments(p2) == segs.update(
                            segs.len() - 1,
                            cur.push(s@[j as int]),
                        ));
                        assert(cur.push(s@[j as int]).drop_last() =~= cur);
                        assert(is_digit(s@[j as int]));
                        assert(seg_num(cur.push(s@[j as int])) == new_value as int);
                        assert(forall|k: int|
                            0 <= k < segs.len() - 1 ==> segments(p2)[k] == #[trigger] segs[k]);
                    }
                    if new_value > u32::MAX as u64 {
                        ok = false;
                        proof {
                            let segs2 = segments(p2);
                            assert(doomed_segment(segs2[segs2.len() - 1]));
                            assert(prefix_bad(p2));
                        }
                    } else {
                        value = new_value;
                        cur_len += 1;
                        proof {
                            let segs = segments(p);
                            let cur = segs.last();
                            let cur2 = cur.push(s@[j as int]);
                            assert(forall|i: int|
                                0 <= i < cur2.len() ==> is_digit(#[trigger] cur2[i]));
                        }
                    }
                } else {
                    ok = false;
                    proof {
                        let segs = segments(p);
                        let cur = segs.last();
                        let cur2 = cur.push(s@[j as int]);
                        assert(segments(p2) == segs.update(segs.len() - 1, cur2));
                        assert(!is_digit(s@[j as int]));
                        assert(cur2[cur2.len() - 1] == s@[j as int]);
                        assert(doomed_segment(cur2));
                        assert(segments(p2)[segments(p2).len() - 1] == cur2);
                        assert(prefix_bad(p2));
                    }
                }
            } else {
                proof {
                    lemma_prefix_bad_push(p, s@[j as int]);
                    assert(p2 =~= p.push(s@[j as int]));
                    assert(prefix_bad(p2));
                }
            }
        }
        j += 1;
    }
    proof {
        assert(s@.subrange(0, n as int) =~= s@);
        lemma_segments_len(s@);
    }
    if ok {
        if cur_len == 0 {
            proof {
                assert(!valid_segment(segments(s@).last()));
            }
            None
        } else {
            result.push(value as u32);
            proof {
                let segs = segments(s@);
                assert(valid_segment(segs[segs.len() - 1]));
                assert(forall|k: int|
                    0 <= k < segs.len() ==> valid_segment(#[trigger] segs[k]));
            }
            Some(result)
        }
    } else {
        proof {
            lemma_prefix_bad_invalid(s@);
        }
        None
    }
}

/// Zero-padded comparison from position `i` on: true when the candidate
/// tuple `cand` is strictly greater than `cur` at the first position, at or
/// after `i`, where the padded tuples differ.
pub open spec fn newer_from(cur: Seq<int>, cand: Seq<int>, i: int) -> bool
    decreases cur.len() + cand.len() - i,
{
    if i >= cur.len() && i >= cand.len() {
        false
    } else {
        let c = if i < cur.len() {
            cur[i]
        } else {
            0
        };
        let n = if i < cand.len() {
            cand[i]
        } else {
            0
        };
        if n > c {
            true
        } else if n < c {
            false
        } else {
            newer_from(cur, cand, i + 1)
        }
    }
}

/// The candidate tuple is strictly greater than the current one once both
/// are right-padded with zeros to equal length and compared segment by
/// segment.
pub open spec fn strictly_newer(cur: Seq<int>, cand: Seq<int>) -> bool {
    newer_from(cur, cand, 0)
}

/// The tuple `a` read as if right-padded with zeros: its entry at `i`, or
/// zero beyond its end.
pub open spec fn padded_at(a: Seq<int>, i: int) -> int {
    if 0 <= i < a.len() {
        a[i]
    } else {
        0
    }
}

/// The common length two tuples are padded to: the longer one's length.
pub open spec fn pad_len(a: Seq<int>, b: Seq<int>) -> int {
    if a.len() > b.len() {
        a.len() as int
    } else {
        b.len() as int
    }
}

/// Strict lexicographic order on the zero-padded tuples, stated directly:
/// at some position the candidate exceeds the current tuple, and the two
/// agree everywhere before it.
pub open spec fn lex_greater_padded(cur: Seq<int>, cand: Seq<int>) -> bool {
    exists|k: int|
        0 <= k < pad_len(cur, cand) && #[trigger] padded_at(cand, k) > padded_at(cur, k) && (
        forall|j: int| 0 <= j < k ==> padded_at(cand, j) == padded_at(cur, j))
}

proof fn lemma_newer_from_iff(cur: Seq<int>, cand: Seq<int>, i: int)
    requires
        0 <= i,
    ensures
        newer_from(cur, cand, i) <==> exists|k: int|
            i <= k < pad_len(cur, cand) && #[trigger] padded_at(cand, k) > padded_at(cur, k) && (
            forall|j: int| i <= j < k ==> padded_at(cand, j) == padded_at(cur, j)),
    decreases cur.len() + cand.len() - i,
{
    if i >= cur.len() && i >= cand.len() {
        if exists|k: int|
            i <= k < pad_len(cur, cand) && #[trigger] padded_at(cand, k) > padded_at(cur, k) && (
            forall|j: int| i <= j < k ==> padded_at(cand, j) == padded_at(cur, j)) {
            let k = choose|k: int|
                i <= k < pad_len(cur, cand) && #[trigger] padded_at(cand, k) > padded_at(cur, k)
                    && (forall|j: int| i <= j < k ==> padded_at(cand, j) == padded_at(cur, j));
            assert(false);
        }
    } else {
        let c = padded_at(cur, i);
        let n = padded_at(cand, i);
        if n > c {
            assert(i < pad_len(cur, cand));
            assert(i <= i < pad_len(cur, cand) && padded_at(cand, i) > padded_at(cur, i) && (
            forall|j: int| i <= j < i ==> padded_at(cand, j) == padded_at(cur, j)));
        } else if n < c {
            assert(!newer_from(cur, cand, i));
            if exists|k: int|
                i <= k < pad_len(cur, cand) && #[trigger] padded_at(cand, k) > padded_at(cur, k)
                    && (forall|j: int| i <= j < k ==> padded_at(cand, j) == padded_at(cur, j)) {
                let k = choose|k: int|
                    i <= k < pad_len(cur, cand) && #[trigger] padded_at(cand, k) > padded_at(
                        cur,
                        k,
                    ) && (forall|j: int| i <= j < k ==> padded_at(cand, j) == padded_at(cur, j));
                if k == i {
                    assert(false);
                } else {
                    assert(padded_at(cand, i) == padded_at(cur, i));
                    assert(false);
                }
            }
        } else {
            lemma_newer_from_iff(cur, cand, i + 1);
            if newer_from(cur, cand, i) {
                let k = choose|k: int|
                    i + 1 <= k < pad_len(cur, cand) && #[trigger] padded_at(cand, k) > padded_at(
                        cur,
                        k,
                    ) && (forall|j: int|
                        i + 1 <= j < k ==> padded_at(cand, j) == padded_at(cur, j));
                assert(forall|j: int| i <= j < k ==> padded_at(cand, j) == padded_at(cur, j));
                assert(i <= k < pad_len(cur, cand) && padded_at(cand, k) > padded_at(cur, k) && (
                forall|j: int| i <= j < k ==> padded_at(cand, j) == padded_at(cur, j)));
            } else {
                if exists|k: int|
                    i <= k < pad_len(cur, cand) && #[trigger] padded_at(cand, k) > padded_at(
                        cur,
                        k,
                    ) && (forall|j: int| i <= j < k ==> padded_at(cand, j) == padded_at(cur, j)) {
                    let k = choose|k: int|
                        i <= k < pad_len(cur, cand) && #[trigger] padded_at(cand, k) > padded_at(
                            cur,
                            k,
                        ) && (forall|j: int|
                            i <= j < k ==> padded_at(cand, j) == padded_at(cur, j));
                    assert(k != i);
                    assert(i + 1 <= k < pad_len(cur, cand) && padded_at(cand, k) > padded_at(
                        cur,
                        k,
                    ) && (forall|j: int|
                        i + 1 <= j < k ==> padded_at(cand, j) == padded_at(cur, j)));
                    assert(newer_from(cur, cand, i + 1));
                    assert(false);
                }
            }
        }
    }
}

/// The comparator's recursion computes exactly the strict lexicographic
/// order on the zero-padded tuples.
pub proof fn lemma_strictly_newer_iff_lex_greater(cur: Seq<int>, cand: Seq<int>)
    ensures
        strictly_newer(cur, cand) <==> lex_greater_padded(cur, cand),
{
    lemma_newer_from_iff(cur, cand, 0);
}

/// For any two well-formed version strings, the comparator declares an
/// upgrade exactly when the candidate's zero-padded integer tuple is
/// lexicographically greater than the current one's.
pub proof fn lemma_upgrade_iff_lex_greater(current: Seq<char>, cand: Seq<char>)
    requires
        valid_version(current),
        valid_version(cand),
    ensures
        strictly_newer(version_nums(current), version_nums(cand)) <==> lex_greater_padded(
            version_nums(current),
            version_nums(cand),
        ),
{
    lemma_strictly_newer_iff_lex_greater(version_nums(current), version_nums(cand));
}

/// The failure reason for a string that does not parse as a version.
pub open spec fn invalid_version_message(s: Seq<char>) -> Seq<char> {
    "Invalid version format: "@ + s
}

/// The key/value shape that marks the binary-version record in the metadata
/// text.
pub open spec fn binver_key_marker() -> Seq<char> {
    "\"key\":\"binver\""@
}

/// The marker that opens a record's value.
pub open spec fn val_marker() -> Seq<char> {
    "\"val\":\""@
}

/// The quote that closes a record's value.
pub open spec fn quote_marker() -> Seq<char> {
    "\""@
}

/// The version string the metadata text carries: the value of the first
/// binary-version record, read as the text between the first value marker at
/// or after the key and the next quote. `None` when any of the three marks
/// is missing.
pub open spec fn extracted_binver(meta: Seq<char>) -> Option<Seq<char>> {
    match find_from(meta, binver_key_marker(), 0) {
        None => None,
        Some(k) => {
            let tail = meta.subrange(k, meta.len() as int);
            match find_from(tail, val_marker(), 0) {
                None => None,
                Some(v) => {
                    let rest = tail.subrange(v + val_marker().len(), tail.len() as int);
                    match find_from(rest, quote_marker(), 0) {
                        None => None,
                        Some(q) => Some(rest.subrange(0, q)),
                    }
                },
            }
        },
    }
}

/// The failure reason when the metadata carries no readable binary version.
pub open spec fn binver_not_found_message() -> Seq<char> {
    "binver not found in metadata"@
}

/// The failure reason when the candidate version does not advance past the
/// deployed one.
pub open spec fn downgrade_message(cand: Seq<char>, current: Seq<char>) -> Seq<char> {
    "❌ New version ("@ + cand + ") is not greater than current version ("@ + current
        + "). Version downgrades are not recommended."@
}

/// The verdict of the monotonicity check on two already-fetched metadata
/// texts: the candidate's binary version must be a strict upgrade over the
/// deployed one.
pub open spec fn version_check_outcome(current_meta: Seq<char>, cand_meta: Seq<char>) -> Result<
    (),
    Seq<char>,
> {
    match extracted_binver(current_meta) {
        None => Err(binver_not_found_message()),
        Some(cv) => match extracted_binver(cand_meta) {
            None => Err(binver_not_found_message()),
            Some(nv) => if !valid_version(cv) {
                Err(invalid_version_message(cv))
            } else if !valid_version(nv) {
                Err(invalid_version_message(nv))
            } else if strictly_newer(version_nums(cv), version_nums(nv)) {
                Ok(())
            } else {
                Err(downgrade_message(nv, cv))
            },
        },
    }
}

/// The version-monotonicity check: compares the deployed and the candidate
/// binary versions that the metadata of each declares.
pub struct VersionCheck;

impl VersionCheck {
    pub fn new() -> (r: VersionCheck)
        ensures
            r == (VersionCheck {}),
    {
        VersionCheck
    }

    /// The decision half of the monotonicity check, on metadata texts the
    /// caller has already fetched for the deployed contract and for the
    /// candidate code: extracts both binary versions and demands a strict
    /// upgrade.
    pub fn evaluate_metadata(&self, current_metadata: &str, new_metadata: &str) -> (r: Result<
        (),
        String,
    >)
        ensures
            match r {
                Ok(()) => version_check_outcome(current_metadata@, new_metadata@) is Ok,
                Err(e) => version_check_outcome(current_metadata@, new_metadata@) matches Err(m)
                    && e@ == m,
            },
    {
        let current_version = match self.extract_binver(current_metadata) {
            Ok(v) => v,
            Err(e) => {
                return Err(e);
            },
        };
        let new_version = match self.extract_binver(new_metadata) {
            Ok(v) => v,
            Err(e) => {
                return Err(e);
            },
        };
        match self.compare_versions(current_version.as_str(), new_version.as_str()) {
            Ok(true) => Ok(()),
            Ok(false) => {
                let mut msg = String::from_str("❌ New version (");
                msg.append(new_version.as_str());
                msg.append(") is not greater than current version (");
                msg.append(current_version.as_str());
                msg.append("). Version downgrades are not recommended.");
                Err(msg)
            },
            Err(e) => Err(e),
        }
    }

    /// Reads the binary-version field out of a metadata text: `Ok` with
    /// exactly the extracted value, or an error when no such field is
    /// present.
    pub fn extract_binver(&self, metadata_json: &str) -> (r: Result<String, String>)
        ensures
            match extracted_binver(metadata_json@) {
                Some(v) => r matches Ok(s) && s@ == v,
                None => r matches Err(e) && e@ == binver_not_found_message(),
            },
    {
        let n = metadata_json.unicode_len();
        if let Some(start) = find_substring(metadata_json, "\"key\":\"binver\"") {
            proof {
                lemma_find_from_some(metadata_json@, binver_key_marker(), 0, start as int);
            }
            let tail = metadata_json.substring_char(start, n);
            let tail_len = tail.unicode_len();
            if let Some(v) = find_substring(tail, "\"val\":\"") {
                proof {
                    lemma_find_from_some(tail@, val_marker(), 0, v as int);
                    reveal_strlit("\"val\":\"");
                    assert(val_marker().len() == 7);
                }
                let rest = tail.substring_char(v + 7, tail_len);
                let rest_len = rest.unicode_len();
                if let Some(q) = find_substring(rest, "\"") {
                    proof {
                        lemma_find_from_some(rest@, quote_marker(), 0, q as int);
                        reveal_strlit("\"");
                    }
                    return Ok(String::from_str(rest.substring_char(0, q)));
                }
            }
        }
        Err(String::from_str("binver not found in metadata"))
    }

    /// Compares two version strings: `Ok(true)` exactly when `cand` is a
    /// strict upgrade over `current`, and an error naming the first operand
    /// that is not a well-formed version.
    pub fn compare_versions(&self, current: &str, cand: &str) -> (r: Result<bool, String>)
        ensures
            !valid_version(current@) ==> (r matches Err(e) && e@ == invalid_version_message(
                current@,
            )),
            valid_version(current@) && !valid_version(cand@) ==> (r matches Err(e) && e@
                == invalid_version_message(cand@)),
            valid_version(current@) && valid_version(cand@) ==> r == Ok::<bool, String>(
                strictly_newer(version_nums(current@), version_nums(cand@)),
            ),
    {
        let current_parts = match parse_version(current) {
            Some(v) => v,
            None => {
                let mut msg = String::from_str("Invalid version format: ");
                msg.append(current);
                return Err(msg);
            },
        };
        let cand_parts = match parse_version(cand) {
            Some(v) => v,
            None => {
                let mut msg = String::from_str("Invalid version format: ");
                msg.append(cand);
                return Err(msg);
            },
        };
        let ghost a = version_nums(current@);
        let ghost b = version_nums(cand@);
        proof {
            assert(a.len() == current_parts@.len());
            assert(b.len() == cand_parts@.len());
            assert(forall|k: int| 0 <= k < a.len() ==> a[k] == current_parts@[k] as int);
            assert(forall|k: int| 0 <= k < b.len() ==> b[k] == cand_parts@[k] as int);
        }
        let cur_len = current_parts.len();
        let cand_len = cand_parts.len();
        let max_len = if cur_len > cand_len {
            cur_len
        } else {
            cand_len
        };
        let mut i: usize = 0;
        while i < max_len
            invariant
                i <= max_len,
                cur_len == current_parts@.len(),
                cand_len == cand_parts@.len(),
                max_len == if cur_len > cand_len {
                    cur_len
                } else {
                    cand_len
                },
                valid_version(current@),
                valid_version(cand@),
                a == version_nums(current@),
                b == version_nums(cand@),
                a.len() == cur_len,
                b.len() == cand_len,
                forall|k: int| 0 <= k < a.len() ==> a[k] == current_parts@[k] as int,
                forall|k: int| 0 <= k < b.len() ==> b[k] == cand_parts@[k] as int,
                newer_from(a, b, 0) == newer_from(a, b, i as int),
            decreases max_len - i,
        {
            let c = if i < cur_len {
                current_parts[i]
            } else {
                0
            };
            let n = if i < cand_len {
                cand_parts[i]
            } else {
                0
            };
            if n > c {
                return Ok(true);
            }
            if n < c {
                return Ok(false);
            }
            i += 1;
        }
        Ok(false)
    }
}

} // verus!
