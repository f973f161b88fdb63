//! Path handling: sanitizing names for the filesystem, joining path segments,
//! choosing a title's local backup directory, and the zero-terminated byte
//! form the platform layer hands to C.

use vstd::prelude::*;
use vstd::string::StringSliceAdditionalSpecFns;

use vstd::multiset::Multiset;
use vstd::relations::sorted_by;

use crate::strutil::{
    ends_with_spec, lemma_seq_char_le_total, lemma_seq_char_le_trans, seq_char_le,
    starts_with_spec, str_ends_with, str_le, str_starts_with,
};

verus! {

/// Whitespace stripped from both ends of a sanitized name: the Unicode
/// white-space code points.
pub open spec fn is_space(c: char) -> bool {
    ||| 0x09 <= (c as u32) <= 0x0D
    ||| (c as u32) == 0x20
    ||| (c as u32) == 0x85
    ||| (c as u32) == 0xA0
    ||| (c as u32) == 0x1680
    ||| 0x2000 <= (c as u32) <= 0x200A
    ||| (c as u32) == 0x2028
    ||| (c as u32) == 0x2029
    ||| (c as u32) == 0x202F
    ||| (c as u32) == 0x205F
    ||| (c as u32) == 0x3000
}

/// Characters the filesystem refuses inside a name.
pub open spec fn is_invalid_path_char(c: char) -> bool {
    ||| c == '\\'
    ||| c == '/'
    ||| c == ':'
    ||| c == '*'
    ||| c == '?'
    ||| c == '"'
    ||| c == '\''
    ||| c == '<'
    ||| c == '>'
    ||| c == '|'
}

/// Each invalid character replaced by an underscore.
pub open spec fn sanitize_spec(s: Seq<char>) -> Seq<char> {
    s.map_values(
        |c: char|
            if is_invalid_path_char(c) {
                '_'
            } else {
                c
            },
    )
}

/// How many whitespace characters the sequence begins with.
pub open spec fn leading_spaces(s: Seq<char>) -> int
    decreases s.len(),
{
    if s.len() == 0 {
        0
    } else if !is_space(s[0]) {
        0
    } else {
        1 + leading_spaces(s.drop_first())
    }
}

/// How many whitespace characters the sequence ends with.
pub open spec fn trailing_spaces(s: Seq<char>) -> int
    decreases s.len(),
{
    if s.len() == 0 {
        0
    } else if !is_space(s[s.len() - 1]) {
        0
    } else {
        1 + trailing_spaces(s.drop_last())
    }
}

/// The sequence with its leading and trailing whitespace removed.
pub open spec fn trim_spec(s: Seq<char>) -> Seq<char> {
    if leading_spaces(s) == s.len() {
        Seq::empty()
    } else {
        s.subrange(leading_spaces(s), s.len() - trailing_spaces(s))
    }
}

/// The leading-space count is the first index that does not hold whitespace.
proof fn lemma_leading_spaces(s: Seq<char>, i: int)
    requires
        0 <= i <= s.len(),
        forall|k: int| 0 <= k < i ==> is_space(#[trigger] s[k]),
        i < s.len() ==> !is_space(s[i]),
    ensures
        leading_spaces(s) == i,
    decreases i,
{
    if i == 0 {
    } else {
        assert(is_space(s[0]));
        let t = s.drop_first();
        assert(forall|k: int| 0 <= k < i - 1 ==> #[trigger] t[k] == s[k + 1]);
        lemma_leading_spaces(t, i - 1);
    }
}

/// The trailing-space count is what lies at or beyond the last index that
/// does not hold whitespace.
proof fn lemma_trailing_spaces(s: Seq<char>, j: int)
    requires
        0 <= j <= s.len(),
        forall|k: int| j <= k < s.len() ==> is_space(#[trigger] s[k]),
        j > 0 ==> !is_space(s[j - 1]),
    ensures
        trailing_spaces(s) == s.len() - j,
    decreases s.len() - j,
{
    if j == s.len() {
    } else {
        assert(is_space(s[s.len() - 1]));
        let t = s.drop_last();
        assert(forall|k: int| 0 <= k < t.len() ==> #[trigger] t[k] == s[k]);
        lemma_trailing_spaces(t, j);
    }
}

/// Whether `c` is whitespace.
pub fn is_space_char(c: char) -> (r: bool)
    ensures
        r == is_space(c),
{
    let u = c as u32;
    (0x09 <= u && u <= 0x0D) || u == 0x20 || u == 0x85 || u == 0xA0 || u == 0x1680 || (0x2000 <= u
        && u <= 0x200A) || u == 0x2028 || u == 0x2029 || u == 0x202F || u == 0x205F || u == 0x3000
}

/// The string with its leading and trailing whitespace removed.
pub fn str_trim(s: &str) -> (r: String)
    ensures
        r@ == trim_spec(s@),
{
    let n = s.unicode_len();
    let mut start: usize = 0;
    while start < n && is_space_char(s.get_char(start))
        invariant
            0 <= start <= n,
            n == s@.len(),
            forall|k: int| 0 <= k < start ==> is_space(#[trigger] s@[k]),
        decreases n - start,
    {
        start += 1;
    }
    if start == n {
        proof {
            lemma_leading_spaces(s@, n as int);
        }
        return String::new();
    }
    proof {
        lemma_leading_spaces(s@, start as int);
    }
    let mut end: usize = n;
    while end > start && is_space_char(s.get_char(end - 1))
        invariant
            start < end <= n || end == start,
            n == s@.len(),
            start < n,
            !is_space(s@[start as int]),
            forall|k: int| end <= k < n ==> is_space(#[trigger] s@[k]),
        decreases end,
    {
        end -= 1;
    }
    assert(end > start);
    proof {
        lemma_trailing_spaces(s@, end as int);
    }
    let sub = s.substring_char(start, end);
    sub.to_owned()
}

/// The name with every filesystem-invalid character replaced by an
/// underscore and surrounding whitespace removed.
pub fn normalize_path(path: &str) -> (r: String)
    ensures
        r@ == trim_spec(sanitize_spec(path@)),
{
    let n = path.unicode_len();
    let mut out = String::new();
    let mut i: usize = 0;
    while i < n
        invariant
            0 <= i <= n,
            n == path@.len(),
            out@.len() == i,
            forall|k: int|
                0 <= k < i ==> out@[k] == (if is_invalid_path_char(#[trigger] path@[k]) {
                    '_'
                } else {
                    path@[k]
                }),
        decreases n - i,
    {
        let c = path.get_char(i);
        if c == '\\' || c == '/' || c == ':' || c == '*' || c == '?' || c == '"' || c == '\''
            || c == '<' || c == '>' || c == '|' {
            out.push('_');
        } else {
            out.push(c);
        }
        i += 1;
    }
    assert(out@ =~= sanitize_spec(path@));
    str_trim(out.as_str())
}

/// `path` appended to `base`, with exactly one separator between them: none
/// is added when `base` is empty or already ends with one.
pub open spec fn join_path_spec(base: Seq<char>, path: Seq<char>) -> Seq<char> {
    if base.len() == 0 || base[base.len() - 1] == '/' {
        base + path
    } else {
        base + seq!['/'] + path
    }
}

/// Joins a directory path and a name with a single separator.
pub fn join_path(base: &str, path: &str) -> (r: String)
    ensures
        r@ == join_path_spec(base@, path@),
{
    let n = base.unicode_len();
    let mut out = base.to_owned();
    if !(n == 0 || base.get_char(n - 1) == '/') {
        out.push('/');
        assert(out@ =~= base@ + seq!['/']);
    }
    out.append(path);
    out
}

/// The string's UTF-8 bytes with a terminating zero, as the platform's C
/// functions take it.
pub fn str_to_c_str(data: &str) -> (r: Vec<u8>)
    ensures
        r@ == data.spec_bytes().push(0u8),
{
    let b = data.as_bytes();
    let mut v = vstd::slice::slice_to_vec(b);
    v.push(0u8);
    v
}

/// The directory that local backups of one title live under.
pub fn game_save_local_dir() -> (r: &'static str)
    ensures
        r@ == "ux0:data/save-cloud/saves"@,
{
    "ux0:data/save-cloud/saves"
}

/// The first index of `s` whose entry starts with `p`, and a negative value
/// when none does.
pub open spec fn first_prefix_index(s: Seq<String>, p: Seq<char>) -> int
    decreases s.len(),
{
    if s.len() == 0 {
        -1
    } else if starts_with_spec(s[0]@, p) {
        0
    } else {
        let r = first_prefix_index(s.drop_first(), p);
        if r < 0 {
            -1
        } else {
            1 + r
        }
    }
}

/// A scan that passed `i` entries without the prefix and stops on one with
/// it has found the first such index.
proof fn lemma_first_prefix_index_found(s: Seq<String>, p: Seq<char>, i: int)
    requires
        0 <= i < s.len(),
        forall|k: int| 0 <= k < i ==> !starts_with_spec(#[trigger] s[k]@, p),
        starts_with_spec(s[i]@, p),
    ensures
        first_prefix_index(s, p) == i,
    decreases i,
{
    if i == 0 {
    } else {
        let t = s.drop_first();
        assert(forall|k: int| 0 <= k < t.len() ==> #[trigger] t[k] == s[k + 1]);
        lemma_first_prefix_index_found(t, p, i - 1);
    }
}

/// A scan that passed every entry without the prefix leaves no first index.
proof fn lemma_first_prefix_index_none(s: Seq<String>, p: Seq<char>)
    requires
        forall|k: int| 0 <= k < s.len() ==> !starts_with_spec(#[trigger] s[k]@, p),
    ensures
        first_prefix_index(s, p) < 0,
    decreases s.len(),
{
    if s.len() == 0 {
    } else {
        let t = s.drop_first();
        assert(forall|k: int| 0 <= k < t.len() ==> #[trigger] t[k] == s[k + 1]);
        lemma_first_prefix_index_none(t, p);
    }
}

/// The local backup directory for a title: the first existing directory
/// under the backup root whose name starts with the title id, and otherwise
/// the root joined with the title id, a space and the sanitized title name,
/// trimmed.
pub fn get_game_local_backup_dir(title_id: &str, name: &str, existing: &Vec<String>) -> (r:
    String)
    ensures
        first_prefix_index(existing@, title_id@) >= 0 ==> r@ == join_path_spec(
            "ux0:data/save-cloud/saves"@,
            existing@[first_prefix_index(existing@, title_id@)]@,
        ),
        first_prefix_index(existing@, title_id@) < 0 ==> r@ == trim_spec(
            join_path_spec("ux0:data/save-cloud/saves"@, title_id@) + seq![' '] + trim_spec(
                sanitize_spec(name@),
            ),
        ),
{
    let root = game_save_local_dir();
    let mut i: usize = 0;
    while i < existing.len()
        invariant
            0 <= i <= existing@.len(),
            root@ == "ux0:data/save-cloud/saves"@,
            forall|k: int| 0 <= k < i ==> !starts_with_spec(#[trigger] existing@[k]@, title_id@),
        decreases existing@.len() - i,
    {
        if str_starts_with(existing[i].as_str(), title_id) {
            proof {
                lemma_first_prefix_index_found(existing@, title_id@, i as int);
            }
            return join_path(root, existing[i].as_str());
        }
        i += 1;
    }
    proof {
        lemma_first_prefix_index_none(existing@, title_id@);
    }
    let mut head = join_path(root, title_id);
    head.push(' ');
    let norm = normalize_path(name);
    head.append(norm.as_str());
    assert(head@ =~= join_path_spec("ux0:data/save-cloud/saves"@, title_id@) + seq![' ']
        + trim_spec(sanitize_spec(name@)));
    str_trim(head.as_str())
}


/// The backup-list order: lexicographically descending by code point, so the
/// newest timestamped archive comes first.
pub open spec fn name_ge(a: String, b: String) -> bool {
    seq_char_le(b@, a@)
}

/// Sorts names descending by code point; the names themselves are kept (the
/// result is a permutation).
fn sort_names_desc(v: Vec<String>) -> (r: Vec<String>)
    ensures
        r@.to_multiset() == v@.to_multiset(),
        sorted_by(r@, |a: String, b: String| name_ge(a, b)),
{
    let ghost leq = |a: String, b: String| name_ge(a, b);
    let mut src = v;
    let mut out: Vec<String> = Vec::new();
    proof {
        out@.to_multiset_ensures();
        broadcast use vstd::multiset::lemma_multiset_empty_len;
        assert(out@.to_multiset() =~= Multiset::empty());
        assert(out@.to_multiset().add(src@.to_multiset()) =~= src@.to_multiset());
    }
    loop
        invariant
            sorted_by(out@, leq),
            out@.to_multiset().add(src@.to_multiset()) == v@.to_multiset(),
            leq == (|a: String, b: String| name_ge(a, b)),
        ensures
            src@.len() == 0,
            sorted_by(out@, leq),
            out@.to_multiset().add(src@.to_multiset()) == v@.to_multiset(),
        decreases src@.len(),
    {
        let ghost src0 = src@;
        let x = match src.pop() {
            Some(x) => x,
            None => {
                break ;
            },
        };
        proof {
            src@.to_multiset_ensures();
            assert(src0 =~= src@.push(x));
            assert(src0.to_multiset() =~= src@.to_multiset().insert(x));
        }
        let mut j: usize = 0;
        while j < out.len() && str_le(x.as_str(), out[j].as_str())
            invariant
                0 <= j <= out@.len(),
                forall|k: int| 0 <= k < j ==> leq(#[trigger] out@[k], x),
                leq == (|a: String, b: String| name_ge(a, b)),
            decreases out@.len() - j,
        {
            j += 1;
        }
        proof {
            let ins = out@.insert(j as int, x);
            if (j as int) < out@.len() {
                assert(!seq_char_le(x@, out@[j as int]@));
                lemma_seq_char_le_total(x@, out@[j as int]@);
                assert(seq_char_le(out@[j as int]@, x@));
            }
            assert forall|p: int, q: int| 0 <= p < q < ins.len() implies leq(
                #[trigger] ins[p],
                #[trigger] ins[q],
            ) by {
                if q < j {
                    assert(ins[p] == out@[p] && ins[q] == out@[q]);
                    assert(leq(out@[p], out@[q]));
                } else if q == j {
                    assert(ins[p] == out@[p] && ins[q] == x);
                    assert(leq(out@[p], x));
                } else if p < j {
                    assert(ins[p] == out@[p] && ins[q] == out@[q - 1]);
                    if q - 1 == j {
                        assert(leq(out@[p], x));
                        lemma_seq_char_le_trans(out@[j as int]@, x@, out@[p]@);
                        assert(ins[q] == out@[j as int]);
                    } else {
                        assert(leq(out@[p], out@[q - 1]));
                    }
                } else if p == j {
                    assert(ins[p] == x && ins[q] == out@[q - 1]);
                    assert(j < out@.len());
                    if q - 1 > j {
                        assert(leq(out@[j as int], out@[q - 1]));
                        lemma_seq_char_le_trans(out@[q - 1]@, out@[j as int]@, x@);
                    }
                } else {
                    assert(ins[p] == out@[p - 1] && ins[q] == out@[q - 1]);
                    assert(leq(out@[p - 1], out@[q - 1]));
                }
            }
            vstd::seq_lib::to_multiset_insert(out@, j as int, x);
            assert(ins.to_multiset() =~= out@.to_multiset().insert(x));
            assert(ins.to_multiset().add(src@.to_multiset()) =~= out@.to_multiset().add(
                src@.to_multiset().insert(x),
            ));
        }
        out.insert(j, x);
    }
    proof {
        src@.to_multiset_ensures();
        assert(src@.to_multiset().len() == 0);
        broadcast use vstd::multiset::lemma_multiset_empty_len;
        assert(src@.to_multiset() =~= Multiset::empty());
        assert(out@.to_multiset().add(Multiset::empty()) =~= out@.to_multiset());
    }
    out
}

/// The archive names among the directory's entries: every file whose name
/// ends in the archive suffix, in walk order.
pub open spec fn zip_files_spec(entries: Seq<(String, bool)>) -> Seq<String>
    decreases entries.len(),
{
    if entries.len() == 0 {
        Seq::empty()
    } else {
        zip_files_spec(entries.drop_last()) + (if entries.last().1 && ends_with_spec(
            entries.last().0@,
            ".zip"@,
        ) {
            seq![entries.last().0]
        } else {
            Seq::empty()
        })
    }
}

/// The local backup list of one title: of the directory's entries (name and
/// whether it is a file), the archive files alone, newest first — sorted
/// descending by name, so timestamped backups come newest first.
pub fn get_local_game_saves(entries: Vec<(String, bool)>) -> (r: Vec<String>)
    ensures
        r@.to_multiset() == zip_files_spec(entries@).to_multiset(),
        sorted_by(r@, |a: String, b: String| name_ge(a, b)),
{
    let mut list: Vec<String> = Vec::new();
    let mut src = entries;
    let ghost src0 = src@;
    let total = src.len();
    let mut i: usize = 0;
    proof {
        assert(src0.subrange(0, 0) =~= Seq::<(String, bool)>::empty());
        assert(list@ =~= zip_files_spec(src0.subrange(0, 0)));
    }
    while src.len() > 0
        invariant
            0 <= i <= src0.len(),
            total == src0.len(),
            i + src@.len() == src0.len(),
            src@ =~= src0.subrange(i as int, src0.len() as int),
            list@ =~= zip_files_spec(src0.subrange(0, i as int)),
        decreases src@.len(),
    {
        let e = src.remove(0);
        proof {
            assert(e == src0[i as int]);
            assert(src@ =~= src0.subrange(i + 1, src0.len() as int));
            let pre = src0.subrange(0, i as int);
            let cur = src0.subrange(0, i + 1);
            assert(cur.drop_last() =~= pre);
            assert(cur.last() == src0[i as int]);
        }
        if e.1 && str_ends_with(e.0.as_str(), ".zip") {
            list.push(e.0);
        }
        i += 1;
    }
    proof {
        assert(src0.subrange(0, src0.len() as int) =~= src0);
    }
    sort_names_desc(list)
}

} // verus!
