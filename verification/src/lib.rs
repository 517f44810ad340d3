//! Deduplication and fan-out for avatar identifiers discovered in local
//! log files: a persistent cache records which remote services have
//! already accepted each identifier (with a freshness window and
//! chunk-safe batch lookups), a coordinator submits each batch to every
//! service that has not yet covered it and persists the merged result,
//! and a buffering actor batches the high-volume service's submissions
//! with bounded retry.

pub mod avtrdb;
pub mod cache;
pub mod process;
pub mod provider;
pub mod settings;
pub mod sqlite;
pub mod vrchat;

use vstd::prelude::*;
use vstd::string::StringExecFns;

verus! {

/// How many distinct colors the console output rotates through.
pub const COLOR_COUNT: usize = 12;

/// Length in bytes of one avatar identifier token.
pub const AVATAR_ID_LEN: usize = 41;

/// Advance the rotating color index used to separate console rows.
pub fn next_color_index(index: usize) -> (r: usize)
    requires
        index < COLOR_COUNT,
    ensures
        r == (index + 1) % (COLOR_COUNT as int),
        r < COLOR_COUNT,
{
    (index + 1) % COLOR_COUNT
}

/// The clickable text printed for one identifier.
pub fn avatar_link_text(avatar_id: &str) -> (r: String)
    ensures
        r@ == "vrcx://avatar/"@ + avatar_id@,
{
    let mut text = <String as StringExecFns>::from_str("vrcx://avatar/");
    text.append(avatar_id);
    text
}

/// Whether a changed path is worth scanning: log-like files by their
/// extension, and the telemetry cache by its exact file name.
pub fn should_forward_path(extension: Option<&String>, file_name: Option<&String>) -> (r: bool)
    ensures
        r == ((match extension {
            Some(e) => e@ == "csv"@ || e@ == "log"@ || e@ == "txt"@,
            None => false,
        }) || (match file_name {
            Some(f) => f@ == "amplitude.cache"@,
            None => false,
        })),
{
    let by_extension = match extension {
        Some(e) => {
            *e == <String as StringExecFns>::from_str("csv") || *e == <String as StringExecFns>::from_str("log")
                || *e == <String as StringExecFns>::from_str("txt")
        },
        None => false,
    };
    let by_name = match file_name {
        Some(f) => *f == <String as StringExecFns>::from_str("amplitude.cache"),
        None => false,
    };
    by_extension || by_name
}

/// Whether byte string `a` orders strictly after `b`, byte by byte:
/// the lexicographic ordering the update check compares versions with.
pub open spec fn spec_lex_gt(a: Seq<u8>, b: Seq<u8>) -> bool
    decreases a.len() + b.len(),
{
    if b.len() == 0 {
        a.len() > 0
    } else if a.len() == 0 {
        false
    } else if a[0] != b[0] {
        a[0] > b[0]
    } else {
        spec_lex_gt(a.skip(1), b.skip(1))
    }
}

/// Whether the version string `remote` orders strictly after `current`.
pub fn version_is_newer(remote: &Vec<u8>, current: &Vec<u8>) -> (r: bool)
    ensures
        r == spec_lex_gt(remote@, current@),
{
    let mut i: usize = 0;
    proof {
        assert(remote@.skip(0) =~= remote@);
        assert(current@.skip(0) =~= current@);
    }
    while i < remote.len() && i < current.len()
        invariant
            i <= remote@.len(),
            i <= current@.len(),
            spec_lex_gt(remote@, current@) == spec_lex_gt(remote@.skip(i as int), current@.skip(i as int)),
            forall|k: int| 0 <= k < i ==> remote@[k] == current@[k],
        decreases remote@.len() - i,
    {
        let a = remote[i];
        let b = current[i];
        proof {
            assert(remote@.skip(i as int)[0] == remote@[i as int]);
            assert(current@.skip(i as int)[0] == current@[i as int]);
            assert(remote@.skip(i as int).skip(1) =~= remote@.skip(i as int + 1));
            assert(current@.skip(i as int).skip(1) =~= current@.skip(i as int + 1));
        }
        if a != b {
            return a > b;
        }
        i = i + 1;
    }
    proof {
        if i == current@.len() {
            assert(current@.skip(i as int).len() == 0);
        } else {
            assert(remote@.skip(i as int).len() == 0);
            assert(current@.skip(i as int).len() > 0);
        }
    }
    remote.len() > current.len()
}

/// A word byte: an ASCII letter, digit or underscore.
pub open spec fn is_word_byte(b: u8) -> bool {
    (97 <= b <= 122) || (65 <= b <= 90) || (48 <= b <= 57) || b == 95
}

/// Whether an avatar identifier starts at byte `p` of `s`: the literal
/// `avtr_`, then five word-byte groups of lengths 8, 4, 4, 4 and 12,
/// separated by hyphens — 41 bytes in all.
pub open spec fn is_avatar_id_at(s: Seq<u8>, p: int) -> bool {
    &&& 0 <= p
    &&& p + AVATAR_ID_LEN <= s.len()
    &&& s[p] == 97 && s[p + 1] == 118 && s[p + 2] == 116 && s[p + 3] == 114 && s[p + 4] == 95
    &&& forall|q: int|
        p + 5 <= q < p + AVATAR_ID_LEN ==> (if q == p + 13 || q == p + 18 || q == p + 23 || q == p
            + 28 {
            s[q] == 45
        } else {
            is_word_byte(s[q])
        })
}

/// The start positions of the identifiers found scanning left to right
/// from `p`, taking each match whole before scanning on behind it
/// (matches never overlap).
pub open spec fn matches_from(s: Seq<u8>, p: int) -> Seq<int>
    decreases s.len() - p,
{
    if p < 0 || p + AVATAR_ID_LEN > s.len() {
        Seq::empty()
    } else if is_avatar_id_at(s, p) {
        seq![p] + matches_from(s, p + AVATAR_ID_LEN)
    } else {
        matches_from(s, p + 1)
    }
}

/// The start positions of every avatar identifier in `s`, leftmost
/// first, non-overlapping.
pub open spec fn avatar_id_positions(s: Seq<u8>) -> Seq<int> {
    matches_from(s, 0)
}

/// Whether the fixed pattern matches at byte `p`.
fn match_at(s: &Vec<u8>, p: usize) -> (r: bool)
    requires
        p + AVATAR_ID_LEN <= s@.len(),
    ensures
        r == is_avatar_id_at(s@, p as int),
{
    let n = s.len();
    if !(s[p] == 97 && s[p + 1] == 118 && s[p + 2] == 116 && s[p + 3] == 114 && s[p + 4] == 95) {
        return false;
    }
    let mut q: usize = p + 5;
    while q < p + AVATAR_ID_LEN
        invariant
            n == s@.len(),
            p + AVATAR_ID_LEN <= n,
            p + 5 <= q <= p + AVATAR_ID_LEN,
            forall|qq: int|
                p + 5 <= qq < q ==> (if qq == p + 13 || qq == p + 18 || qq == p + 23 || qq == p
                    + 28 {
                    s@[qq] == 45
                } else {
                    is_word_byte(s@[qq])
                }),
        decreases p + AVATAR_ID_LEN - q,
    {
        let b = s[q];
        if q == p + 13 || q == p + 18 || q == p + 23 || q == p + 28 {
            if b != 45 {
                return false;
            }
        } else {
            if !((97 <= b && b <= 122) || (65 <= b && b <= 90) || (48 <= b && b <= 57) || b == 95) {
                return false;
            }
        }
        q = q + 1;
    }
    true
}

/// Extract every avatar identifier from one line of raw log bytes,
/// leftmost first and never overlapping: exactly the matches of the
/// fixed `avtr_` pattern.
pub fn parse_avatar_ids(line: &Vec<u8>) -> (r: Vec<Vec<u8>>)
    ensures
        r@.len() == avatar_id_positions(line@).len(),
        forall|j: int|
            0 <= j < r@.len() ==> r@[j]@ == line@.subrange(
                #[trigger] avatar_id_positions(line@)[j],
                avatar_id_positions(line@)[j] + AVATAR_ID_LEN,
            ),
{
    let n = line.len();
    let mut r: Vec<Vec<u8>> = Vec::new();
    let ghost mut pos: Seq<int> = Seq::empty();
    let mut p: usize = 0;
    while AVATAR_ID_LEN <= n && p <= n - AVATAR_ID_LEN
        invariant
            n == line@.len(),
            p <= line@.len(),
            matches_from(line@, 0) =~= pos + matches_from(line@, p as int),
            r@.len() == pos.len(),
            forall|j: int|
                0 <= j < r@.len() ==> r@[j]@ == line@.subrange(
                    #[trigger] pos[j],
                    pos[j] + AVATAR_ID_LEN,
                ),
        decreases line@.len() - p,
    {
        if match_at(line, p) {
            let mut token: Vec<u8> = Vec::new();
            let mut k: usize = 0;
            while k < AVATAR_ID_LEN
                invariant
                    n == line@.len(),
                    p + AVATAR_ID_LEN <= line@.len(),
                    k <= AVATAR_ID_LEN,
                    token@.len() == k,
                    forall|m: int| 0 <= m < k ==> token@[m] == line@[p + m],
                decreases AVATAR_ID_LEN - k,
            {
                token.push(line[p + k]);
                k = k + 1;
            }
            proof {
                assert(token@ =~= line@.subrange(p as int, p as int + AVATAR_ID_LEN));
                assert(matches_from(line@, p as int) == seq![p as int] + matches_from(
                    line@,
                    p as int + AVATAR_ID_LEN,
                ));
                assert((pos + matches_from(line@, p as int)) =~= (pos.push(p as int)
                    + matches_from(line@, p as int + AVATAR_ID_LEN)));
            }
            let ghost prev_pos = pos;
            proof {
                pos = pos.push(p as int);
            }
            r.push(token);
            proof {
                assert(forall|j: int|
                    0 <= j < prev_pos.len() ==> r@[j]@ == line@.subrange(
                        #[trigger] pos[j],
                        pos[j] + AVATAR_ID_LEN,
                    ));
                assert(pos[pos.len() - 1] == p as int);
            }
            p = p + AVATAR_ID_LEN;
        } else {
            proof {
                assert(matches_from(line@, p as int) == matches_from(line@, p as int + 1));
            }
            p = p + 1;
        }
    }
    proof {
        assert(matches_from(line@, p as int) =~= Seq::<int>::empty());
        assert(avatar_id_positions(line@) =~= pos);
    }
    r
}

} // verus!
