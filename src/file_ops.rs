use vstd::prelude::*;
use vstd::string::*;
use vstd::seq_lib::{to_multiset_build, to_multiset_insert, to_multiset_len};
use vstd::multiset::{group_multiset_axioms, lemma_multiset_empty_len};
use vstd::multiset::Multiset;

verus! {

/// The outcome of a file operation, as reported to the front end.
#[derive(Debug)]
pub struct FileOpResult {
    pub success: bool,
    pub message: String,
}

impl FileOpResult {
    /// A successful outcome with the given message.
    pub fn success(message: &str) -> (r: Self)
        ensures
            r.success,
            r.message@ == message@,
    {
        FileOpResult { success: true, message: String::from_str(message) }
    }

    /// A failed outcome with the given message.
    pub fn error(message: &str) -> (r: Self)
        ensures
            !r.success,
            r.message@ == message@,
    {
        FileOpResult { success: false, message: String::from_str(message) }
    }
}

/// What is known of one directory entry; `children` is filled only when the
/// listing went deeper.
#[derive(Debug)]
pub struct FileMetadata {
    pub name: String,
    pub path: String,
    pub is_dir: bool,
    pub size: u64,
    pub modified: u64,
    pub children: Option<Vec<FileMetadata>>,
}

/// Whether a listing at `depth` lists the children of an entry: only of a
/// directory, and only while more than one level remains.
pub fn should_descend(is_dir: bool, depth: u32) -> (r: bool)
    ensures
        r == (is_dir && depth > 1),
{
    is_dir && depth > 1
}

/// The order of `str` on texts: by characters, a prefix first.
pub open spec fn text_le(a: Seq<char>, b: Seq<char>) -> bool
    decreases a.len(),
{
    if a.len() == 0 {
        true
    } else if b.len() == 0 {
        false
    } else if a[0] != b[0] {
        (a[0] as int) < (b[0] as int)
    } else {
        text_le(a.drop_first(), b.drop_first())
    }
}

proof fn lemma_text_le_total(a: Seq<char>, b: Seq<char>)
    ensures
        text_le(a, b) || text_le(b, a),
    decreases a.len(),
{
    if a.len() > 0 && b.len() > 0 {
        if a[0] == b[0] {
            lemma_text_le_total(a.drop_first(), b.drop_first());
        }
    }
}

/// Whether text `a` orders before or equal to text `b`.
pub fn name_le(a: &str, b: &str) -> (r: bool)
    ensures
        r == text_le(a@, b@),
{
    let n = a.unicode_len();
    let m = b.unicode_len();
    let mut i: usize = 0;
    assert(a@.subrange(0, n as int) =~= a@);
    assert(b@.subrange(0, m as int) =~= b@);
    while i < n && i < m && a.get_char(i) == b.get_char(i)
        invariant
            n == a@.len(),
            m == b@.len(),
            i <= n,
            i <= m,
            text_le(a@, b@) == text_le(a@.subrange(i as int, n as int), b@.subrange(i as int, m as int)),
        decreases n - i,
    {
        proof {
            let sa = a@.subrange(i as int, n as int);
            let sb = b@.subrange(i as int, m as int);
            assert(sa.drop_first() =~= a@.subrange(i + 1, n as int));
            assert(sb.drop_first() =~= b@.subrange(i + 1, m as int));
        }
        i = i + 1;
    }
    if i == n {
        return true;
    }
    if i == m {
        return false;
    }
    a.get_char(i) < b.get_char(i)
}

/// The order of a directory listing: directories first, then by name.
pub open spec fn entry_le(a: FileMetadata, b: FileMetadata) -> bool {
    (a.is_dir && !b.is_dir) || (a.is_dir == b.is_dir && text_le(a.name@, b.name@))
}

/// Whether entry `a` orders before or equal to entry `b`.
pub fn entry_before(a: &FileMetadata, b: &FileMetadata) -> (r: bool)
    ensures
        r == entry_le(*a, *b),
{
    if a.is_dir != b.is_dir {
        a.is_dir
    } else {
        name_le(a.name.as_str(), b.name.as_str())
    }
}

/// Whether each entry orders before or equal to the next.
pub open spec fn listing_ordered(s: Seq<FileMetadata>) -> bool {
    forall|i: int| 0 <= i < s.len() - 1 ==> entry_le(#[trigger] s[i], s[i + 1])
}

/// A directory listing in display order: directories first, then by name.
pub fn sort_entries(entries: Vec<FileMetadata>) -> (r: Vec<FileMetadata>)
    ensures
        r@.to_multiset() == entries@.to_multiset(),
        listing_ordered(r@),
{
    broadcast use to_multiset_insert, to_multiset_build, to_multiset_len, group_multiset_axioms, lemma_multiset_empty_len;

    let ghost input = entries@;
    let mut rest = entries;
    let mut out: Vec<FileMetadata> = Vec::new();
    assert(out@.to_multiset().len() == 0);
    assert(out@.to_multiset() =~= Multiset::<FileMetadata>::empty());
    while rest.len() > 0
        invariant
            out@.to_multiset().add(rest@.to_multiset()) == input.to_multiset(),
            listing_ordered(out@),
        decreases rest@.len(),
    {
        let ghost rest0 = rest@;
        let x = rest.pop().unwrap();
        let mut p: usize = out.len();
        while p > 0 && !entry_before(&out[p - 1], &x)
            invariant
                p <= out@.len(),
                forall|k: int| p <= k < out@.len() ==> !entry_le(#[trigger] out@[k], x),
            decreases p,
        {
            p = p - 1;
        }
        let ghost out0 = out@;
        proof {
            if p < out0.len() {
                lemma_text_le_total(out0[p as int].name@, x.name@);
            }
        }
        out.insert(p, x);
        proof {
            assert(out@ == out0.insert(p as int, x));
            assert forall|i: int| 0 <= i < out@.len() - 1 implies entry_le(#[trigger] out@[i], out@[i + 1]) by {
                if i < p as int - 1 {
                    assert(out@[i] == out0[i] && out@[i + 1] == out0[i + 1]);
                } else if i == p as int - 1 {
                    assert(out@[i] == out0[i] && out@[i + 1] == x);
                } else if i == p as int {
                    assert(out@[i + 1] == out0[i]);
                } else {
                    assert(out@[i] == out0[i - 1] && out@[i + 1] == out0[i]);
                }
            }
            assert(rest0 == rest@.push(x));
            assert(rest0.to_multiset() == rest@.push(x).to_multiset());
            assert(out@.to_multiset() == out0.insert(p as int, x).to_multiset());
            to_multiset_insert(out0, p as int, x);
            to_multiset_build(rest@, x);
            let lhs = out@.to_multiset().add(rest@.to_multiset());
            let rhs = out0.to_multiset().add(rest0.to_multiset());
            assert forall|v: FileMetadata| #[trigger] lhs.count(v) == rhs.count(v) by {
                assert(out@.to_multiset().count(v) == out0.to_multiset().insert(x).count(v));
                assert(rest0.to_multiset().count(v) == rest@.to_multiset().insert(x).count(v));
            }
            assert(lhs =~= rhs);
        }
    }
    assert(rest@.to_multiset().len() == 0);
    assert(rest@.to_multiset() =~= Multiset::<FileMetadata>::empty());
    assert(out@.to_multiset() =~= input.to_multiset());
    out
}

} // verus!
