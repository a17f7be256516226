//! The report files to read: their names, their night-battle companions,
//! and the order in which they are read.
use vstd::prelude::*;
use std::path::PathBuf;
use vstd::utf8::encode_utf8;
use crate::text::{remove_all, remove_all_matches};

verus! {

/// A filesystem path (std's `PathBuf`), carried through unread.
#[verifier::external_type_specification]
#[verifier::external_body]
pub struct ExPathBuf(PathBuf);

/// A day-battle report file to read, with its night-battle file if there is one.
#[derive(Debug)]
pub struct ParseTarget {
    pub name: String,
    pub file: PathBuf,
    pub night_file: Option<PathBuf>,
}

/// The name of a report: its file stem with every `_day` taken out.
pub fn target_name(file_stem: &str) -> (r: String)
    ensures
        r@ == remove_all(file_stem@, "_day"@),
{
    remove_all_matches(file_stem, "_day")
}

/// The file name of the night battle that goes with report `name`:
/// `{name}_night.{ext}`.
pub fn night_file_name(name: &str, ext: &str) -> (r: String)
    ensures
        r@ == name@ + "_night."@ + ext@,
{
    let mut r = name.to_owned();
    r.append("_night.");
    r.append(ext);
    r
}

/// The pattern for the day-battle reports with extension `ext` in folder
/// `dir` under `root`: `./{root}/{dir}/*_day.{ext}`.
pub open spec fn report_pattern(root: Seq<char>, dir: Seq<char>, ext: Seq<char>) -> Seq<char> {
    "./"@ + root + "/"@ + dir + "/*_day."@ + ext
}

/// The patterns searched, in order: battles (pve), exercises (pvp) and
/// friends' exercises (friend), each first as `json`, then as `txt`.
pub open spec fn spec_report_patterns(root: Seq<char>) -> Seq<Seq<char>> {
    seq![
        report_pattern(root, "pve"@, "json"@),
        report_pattern(root, "pve"@, "txt"@),
        report_pattern(root, "pvp"@, "json"@),
        report_pattern(root, "pvp"@, "txt"@),
        report_pattern(root, "friend"@, "json"@),
        report_pattern(root, "friend"@, "txt"@),
    ]
}

fn pattern(root: &str, dir: &str, ext: &str) -> (r: String)
    ensures
        r@ == report_pattern(root@, dir@, ext@),
{
    let mut r = "./".to_owned();
    r.append(root);
    r.append("/");
    r.append(dir);
    r.append("/*_day.");
    r.append(ext);
    r
}

/// The file patterns under which the reports below `root` are found, in
/// the order they are searched.
pub fn report_patterns(root: &str) -> (r: Vec<String>)
    ensures
        r@.map_values(|s: String| s@) == spec_report_patterns(root@),
{
    let mut r: Vec<String> = Vec::new();
    let dirs: Vec<&'static str> = vec!["pve", "pvp", "friend"];
    let exts: Vec<&'static str> = vec!["json", "txt"];
    let mut i: usize = 0;
    while i < 3
        invariant
            i <= 3,
            dirs@ == seq!["pve", "pvp", "friend"],
            exts@ == seq!["json", "txt"],
            r@.len() == 2 * i,
            forall|k: int|
                0 <= k < 2 * i ==> #[trigger] r@[k]@ == spec_report_patterns(root@)[k],
        decreases 3 - i,
    {
        let mut j: usize = 0;
        while j < 2
            invariant
                i < 3,
                j <= 2,
                dirs@ == seq!["pve", "pvp", "friend"],
                exts@ == seq!["json", "txt"],
                r@.len() == 2 * i + j,
                forall|k: int|
                    0 <= k < 2 * i + j ==> #[trigger] r@[k]@ == spec_report_patterns(root@)[k],
            decreases 2 - j,
        {
            r.push(pattern(root, dirs[i], exts[j]));
            j = j + 1;
        }
        i = i + 1;
    }
    assert(r@.map_values(|s: String| s@) =~= spec_report_patterns(root@));
    r
}

/// Byte-wise lexicographic order (`<=` on strings).
pub open spec fn bytes_le(a: Seq<u8>, b: Seq<u8>) -> bool
    decreases a.len(),
{
    if a.len() == 0 {
        true
    } else if b.len() == 0 {
        false
    } else if a[0] != b[0] {
        a[0] < b[0]
    } else {
        bytes_le(a.drop_first(), b.drop_first())
    }
}

proof fn lemma_bytes_le_total(a: Seq<u8>, b: Seq<u8>)
    ensures
        bytes_le(a, b) || bytes_le(b, a),
    decreases a.len(),
{
    if a.len() > 0 && b.len() > 0 && a[0] == b[0] {
        lemma_bytes_le_total(a.drop_first(), b.drop_first());
    }
}

fn bytes_le_exec(a: &[u8], b: &[u8]) -> (r: bool)
    ensures
        r == bytes_le(a@, b@),
{
    let mut i: usize = 0;
    assert(a@.skip(0) =~= a@);
    assert(b@.skip(0) =~= b@);
    while i < a.len() && i < b.len()
        invariant
            i <= a@.len(),
            i <= b@.len(),
            bytes_le(a@, b@) == bytes_le(a@.skip(i as int), b@.skip(i as int)),
        decreases a@.len() - i,
    {
        if a[i] != b[i] {
            assert(a@.skip(i as int)[0] == a@[i as int]);
            assert(b@.skip(i as int)[0] == b@[i as int]);
            return a[i] < b[i];
        }
        assert(a@.skip(i as int).drop_first() =~= a@.skip(i + 1));
        assert(b@.skip(i as int).drop_first() =~= b@.skip(i + 1));
        i = i + 1;
    }
    i == a.len()
}

/// The bytes by which a report is ordered: the UTF-8 encoding of its name.
pub open spec fn name_bytes(t: ParseTarget) -> Seq<u8> {
    encode_utf8(t.name@)
}

/// Reports ordered by name, byte by byte.
pub open spec fn sorted_by_name(s: Seq<ParseTarget>) -> bool {
    forall|i: int, j: int| 0 <= i < j < s.len() ==> bytes_le(name_bytes(s[i]), name_bytes(s[j]))
}

/// The reports ordered by name (byte order, as strings compare).
pub fn sort_targets(targets: Vec<ParseTarget>) -> (r: Vec<ParseTarget>)
    ensures
        sorted_by_name(r@),
        r@.to_multiset() == targets@.to_multiset(),
{
    broadcast use vstd::seq_lib::group_to_multiset_ensures;
    let ghost orig = targets@;
    let mut input = targets;
    let mut out: Vec<ParseTarget> = Vec::new();
    let ghost mut taken: int = 0;
    assert(orig.take(0) =~= Seq::<ParseTarget>::empty());
    assert(orig.skip(0) =~= orig);
    while input.len() > 0
        invariant
            0 <= taken <= orig.len(),
            input@ == orig.skip(taken),
            out@.to_multiset() == orig.take(taken).to_multiset(),
            sorted_by_name(out@),
        decreases input@.len(),
    {
        let x = input.remove(0);
        proof {
            assert(orig.take(taken + 1) =~= orig.take(taken).push(x));
            vstd::seq_lib::to_multiset_build(orig.take(taken), x);
            assert(input@ =~= orig.skip(taken + 1));
            taken = taken + 1;
        }
        let xb = x.name.as_str().as_bytes();
        // the first place holding a name that sorts strictly after `x`
        let mut p: usize = 0;
        while p < out.len() && bytes_le_exec(out[p].name.as_str().as_bytes(), xb)
            invariant
                p <= out@.len(),
                xb@ == name_bytes(x),
                forall|q: int| 0 <= q < p ==> bytes_le(name_bytes(#[trigger] out@[q]), name_bytes(x)),
            decreases out@.len() - p,
        {
            p = p + 1;
        }
        proof {
            assert forall|q: int| p <= q < out@.len() implies bytes_le(
                name_bytes(x),
                name_bytes(#[trigger] out@[q]),
            ) by {
                if !bytes_le(name_bytes(x), name_bytes(out@[q])) {
                    lemma_bytes_le_total(name_bytes(x), name_bytes(out@[q]));
                    // out[p] sorts after x, and out[p] <= out[q]
                    assert(!bytes_le(name_bytes(out@[p as int]), name_bytes(x)));
                    assert(bytes_le(name_bytes(out@[p as int]), name_bytes(out@[q])));
                    lemma_bytes_le_trans(name_bytes(out@[p as int]), name_bytes(out@[q]), name_bytes(x));
                }
            }
        }
        let ghost before = out@;
        out.insert(p, x);
        proof {
            assert(out@.to_multiset() == before.to_multiset().insert(x)) by {
                vstd::seq_lib::to_multiset_insert(before, p as int, x);
            }
            assert forall|i: int, j: int| 0 <= i < j < out@.len() implies bytes_le(
                name_bytes(out@[i]),
                name_bytes(out@[j]),
            ) by {
                if j < p {
                    assert(out@[i] == before[i] && out@[j] == before[j]);
                } else if j == p {
                    assert(out@[i] == before[i]);
                } else if i < p {
                    assert(out@[i] == before[i] && out@[j] == before[j - 1]);
                    assert(bytes_le(name_bytes(before[i]), name_bytes(x)));
                    assert(bytes_le(name_bytes(x), name_bytes(before[j - 1])));
                    lemma_bytes_le_trans(name_bytes(before[i]), name_bytes(x), name_bytes(before[j - 1]));
                } else if i == p {
                    assert(out@[j] == before[j - 1]);
                } else {
                    assert(out@[i] == before[i - 1] && out@[j] == before[j - 1]);
                }
            }
        }
    }
    assert(orig.take(taken) =~= orig);
    out
}

proof fn lemma_bytes_le_trans(a: Seq<u8>, b: Seq<u8>, c: Seq<u8>)
    requires
        bytes_le(a, b),
        bytes_le(b, c),
    ensures
        bytes_le(a, c),
    decreases a.len(),
{
    if a.len() > 0 && b.len() > 0 && c.len() > 0 && a[0] == b[0] && b[0] == c[0] {
        lemma_bytes_le_trans(a.drop_first(), b.drop_first(), c.drop_first());
    }
}

} // verus!
