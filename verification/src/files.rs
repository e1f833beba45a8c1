//! The pure part of the file-browsing operations: path-traversal
//! protection, the read-size ceiling, and the listing order.

use vstd::prelude::*;
use vstd::multiset::Multiset;
use vstd::relations::sorted_by;
use vstd::string::*;

use crate::errors::FileError;

verus! {

/// Largest file the read endpoint will serve, in bytes.
pub const MAX_READ_BYTES: u64 = 5242880;

/// One directory entry as the listing reports it.
#[derive(Debug)]
pub struct FileInfo {
    pub name: String,
    pub path: String,
    pub is_dir: bool,
    pub size: u64,
    pub last_modified: u64,
}

impl Clone for FileInfo {
    fn clone(&self) -> (r: Self)
        ensures
            r == *self,
    {
        FileInfo {
            name: self.name.clone(),
            path: self.path.clone(),
            is_dir: self.is_dir,
            size: self.size,
            last_modified: self.last_modified,
        }
    }
}

/// Whether `s` holds two consecutive dots anywhere.
pub open spec fn spec_contains_dotdot(s: Seq<char>) -> bool {
    exists|i: int| 0 <= i && i + 1 < s.len() && #[trigger] s[i] == '.' && s[i + 1] == '.'
}

/// A path tail is rejected when it could escape the base directory:
/// it holds `..` or is absolute.
pub open spec fn spec_tail_rejected(tail: Seq<char>) -> bool {
    spec_contains_dotdot(tail) || (tail.len() > 0 && tail[0] == '/')
}

fn contains_dotdot(s: &str) -> (r: bool)
    ensures
        r == spec_contains_dotdot(s@),
{
    let len = s.unicode_len();
    if len < 2 {
        return false;
    }
    let mut k: usize = 0;
    while k + 1 < len
        invariant
            0 <= k,
            k + 1 <= len,
            len == s@.len(),
            forall|i: int| 0 <= i < k ==> !(#[trigger] s@[i] == '.' && s@[i + 1] == '.'),
        decreases len - k,
    {
        if s.get_char(k) == '.' && s.get_char(k + 1) == '.' {
            return true;
        }
        k = k + 1;
    }
    false
}

/// Joins a caller-supplied path tail onto a base directory, refusing with
/// `InvalidPath` exactly the tails that could escape it: any holding `..`,
/// or starting with `/`. On success the result is the plain join
/// `base/tail`.
pub fn safe_join(base: &str, tail: &str) -> (r: Result<String, FileError>)
    ensures
        r is Err <==> spec_tail_rejected(tail@),
        r is Err ==> r->Err_0 == FileError::InvalidPath,
        r is Ok ==> r->Ok_0@ == base@ + "/"@ + tail@,
{
    if contains_dotdot(tail) {
        return Err(FileError::InvalidPath);
    }
    if tail.unicode_len() > 0 && tail.get_char(0) == '/' {
        return Err(FileError::InvalidPath);
    }
    let mut joined = base.to_owned();
    joined.append("/");
    joined.append(tail);
    Ok(joined)
}

/// Guards the read endpoint: a file over the size ceiling is refused as
/// too large, exactly when `size > MAX_READ_BYTES`.
pub fn read_size_guard(size: u64) -> (r: Result<(), FileError>)
    ensures
        r is Err <==> size > MAX_READ_BYTES,
        r is Err ==> r->Err_0 == FileError::FileTooLarge,
{
    if size > MAX_READ_BYTES {
        Err(FileError::FileTooLarge)
    } else {
        Ok(())
    }
}

/// What `str::to_lowercase` returns on the characters of `s`; the result
/// depends on those characters alone.
pub uninterp spec fn lower_of(s: Seq<char>) -> Seq<char>;

/// Relies on `str::to_lowercase`: the Unicode-lowercased text, a function
/// of the input characters alone.
#[verifier::external_body]
pub(crate) fn lowercase(s: &str) -> (r: String)
    ensures
        r@ == lower_of(s@),
{
    s.to_lowercase()
}

/// Lexicographic order on character sequences (codepoint by codepoint,
/// a prefix before its extensions).
pub open spec fn spec_lex_le(a: Seq<char>, b: Seq<char>) -> bool
    decreases a.len(),
{
    if a.len() == 0 {
        true
    } else if b.len() == 0 {
        false
    } else if a.first() != b.first() {
        a.first() < b.first()
    } else {
        spec_lex_le(a.drop_first(), b.drop_first())
    }
}

proof fn lemma_lex_total(a: Seq<char>, b: Seq<char>)
    ensures
        spec_lex_le(a, b) || spec_lex_le(b, a),
    decreases a.len(),
{
    if a.len() > 0 && b.len() > 0 && a.first() == b.first() {
        lemma_lex_total(a.drop_first(), b.drop_first());
    }
}

proof fn lemma_lex_trans(a: Seq<char>, b: Seq<char>, c: Seq<char>)
    requires
        spec_lex_le(a, b),
        spec_lex_le(b, c),
    ensures
        spec_lex_le(a, c),
    decreases a.len(),
{
    if a.len() > 0 {
        if a.first() == b.first() && b.first() == c.first() {
            lemma_lex_trans(a.drop_first(), b.drop_first(), c.drop_first());
        }
    }
}

/// The listing order: directories before files, then by lowercased name.
pub open spec fn spec_file_le(a: FileInfo, b: FileInfo) -> bool {
    if a.is_dir != b.is_dir {
        a.is_dir
    } else {
        spec_lex_le(lower_of(a.name@), lower_of(b.name@))
    }
}

/// The listing order as a relation, for sortedness statements.
pub open spec fn file_order() -> spec_fn(FileInfo, FileInfo) -> bool {
    |a: FileInfo, b: FileInfo| spec_file_le(a, b)
}

proof fn lemma_file_le_total(a: FileInfo, b: FileInfo)
    ensures
        spec_file_le(a, b) || spec_file_le(b, a),
{
    if a.is_dir == b.is_dir {
        lemma_lex_total(lower_of(a.name@), lower_of(b.name@));
    }
}

proof fn lemma_file_le_trans(a: FileInfo, b: FileInfo, c: FileInfo)
    requires
        spec_file_le(a, b),
        spec_file_le(b, c),
    ensures
        spec_file_le(a, c),
{
    if a.is_dir == b.is_dir && b.is_dir == c.is_dir {
        lemma_lex_trans(lower_of(a.name@), lower_of(b.name@), lower_of(c.name@));
    }
}

/// Compares two character sequences in the listing order.
fn lex_le(a: &str, b: &str) -> (r: bool)
    ensures
        r == spec_lex_le(a@, b@),
{
    let alen = a.unicode_len();
    let blen = b.unicode_len();
    let mut k: usize = 0;
    proof {
        assert(a@.skip(0) =~= a@);
        assert(b@.skip(0) =~= b@);
    }
    while k < alen && k < blen
        invariant
            0 <= k <= alen,
            k <= blen,
            alen == a@.len(),
            blen == b@.len(),
            spec_lex_le(a@, b@) == spec_lex_le(a@.skip(k as int), b@.skip(k as int)),
        decreases alen - k,
    {
        let ca = a.get_char(k);
        let cb = b.get_char(k);
        proof {
            assert(a@.skip(k as int).first() == ca);
            assert(b@.skip(k as int).first() == cb);
            assert(a@.skip(k as int).drop_first() =~= a@.skip(k + 1));
            assert(b@.skip(k as int).drop_first() =~= b@.skip(k + 1));
        }
        if ca != cb {
            return ca < cb;
        }
        k = k + 1;
    }
    proof {
        if k >= alen {
            assert(a@.skip(k as int).len() == 0);
        } else {
            assert(b@.skip(k as int).len() == 0);
            assert(a@.skip(k as int).len() > 0);
        }
    }
    alen <= blen
}

/// Compares two directory entries in the listing order.
pub fn file_le(a: &FileInfo, b: &FileInfo) -> (r: bool)
    ensures
        r == spec_file_le(*a, *b),
{
    if a.is_dir != b.is_dir {
        a.is_dir
    } else {
        let la = lowercase(a.name.as_str());
        let lb = lowercase(b.name.as_str());
        lex_le(la.as_str(), lb.as_str())
    }
}

/// Sorts a listing: directories first, then by lowercased name. The result
/// is a rearrangement of the input (the same entries, as a multiset) in
/// the listing order.
pub fn sort_files(v: Vec<FileInfo>) -> (r: Vec<FileInfo>)
    ensures
        sorted_by(r@, file_order()),
        r@.to_multiset() == v@.to_multiset(),
{
    broadcast use vstd::seq_lib::group_to_multiset_ensures;

    let mut rest = v;
    let mut out: Vec<FileInfo> = Vec::new();
    proof {
        assert(out@.to_multiset().add(rest@.to_multiset()) =~= v@.to_multiset());
    }
    while rest.len() > 0
        invariant
            sorted_by(out@, file_order()),
            out@.to_multiset().add(rest@.to_multiset()) == v@.to_multiset(),
            forall|i: int, j: int|
                0 <= i < out@.len() && 0 <= j < rest@.len() ==> #[trigger] spec_file_le(
                    out@[i],
                    rest@[j],
                ),
        decreases rest@.len(),
    {
        // index of a least element of `rest` in the listing order
        let mut m: usize = 0;
        let mut k: usize = 1;
        proof {
            lemma_file_le_total(rest@[0], rest@[0]);
        }
        while k < rest.len()
            invariant
                0 <= m < k <= rest@.len(),
                rest@.len() > 0,
                forall|j: int| 0 <= j < k ==> #[trigger] spec_file_le(rest@[m as int], rest@[j]),
            decreases rest@.len() - k,
        {
            if file_le(&rest[k], &rest[m]) {
                proof {
                    assert forall|j: int| 0 <= j < k + 1 implies #[trigger] spec_file_le(
                        rest@[k as int],
                        rest@[j],
                    ) by {
                        if j < k {
                            lemma_file_le_trans(rest@[k as int], rest@[m as int], rest@[j]);
                        } else {
                            lemma_file_le_total(rest@[k as int], rest@[k as int]);
                        }
                    }
                }
                m = k;
            } else {
                proof {
                    lemma_file_le_total(rest@[m as int], rest@[k as int]);
                }
            }
            k = k + 1;
        }
        let ghost old_out = out@;
        let ghost old_rest = rest@;
        let x = rest.remove(m);
        out.push(x);
        proof {
            old_rest.to_multiset_ensures();
            old_out.to_multiset_ensures();
            assert(x == old_rest[m as int]);
            assert(old_rest.remove(m as int).to_multiset() =~= old_rest.to_multiset().remove(x));
            assert(old_out.push(x).to_multiset() =~= old_out.to_multiset().insert(x));
            assert(out@.to_multiset().add(rest@.to_multiset()) =~= v@.to_multiset()) by {
                assert(old_rest.to_multiset().count(x) > 0) by {
                    assert(old_rest.contains(x));
                }
                assert(out@.to_multiset().add(rest@.to_multiset()) =~= old_out.to_multiset().add(
                    old_rest.to_multiset(),
                ));
            }
            assert forall|i: int, j: int|
                0 <= i < j < out@.len() implies #[trigger] file_order()(out@[i], out@[j]) by {
                if j < out@.len() - 1 {
                    assert(sorted_by(old_out, file_order()));
                    assert(file_order()(old_out[i], old_out[j]));
                } else {
                    assert(spec_file_le(old_out[i], old_rest[m as int]));
                }
            }
            assert forall|i: int, j: int|
                0 <= i < out@.len() && 0 <= j < rest@.len() implies #[trigger] spec_file_le(
                    out@[i],
                    rest@[j],
                ) by {
                let j0 = if j < m as int {
                    j
                } else {
                    j + 1
                };
                assert(rest@[j] == old_rest[j0]);
                if i < out@.len() - 1 {
                    assert(spec_file_le(old_out[i], old_rest[j0]));
                } else {
                    assert(out@[i] == old_rest[m as int]);
                    assert(spec_file_le(old_rest[m as int], old_rest[j0]));
                }
            }
        }
    }
    proof {
        assert(rest@.to_multiset() =~= Multiset::<FileInfo>::empty()) by {
            assert(rest@.len() == 0);
            assert(rest@ =~= Seq::<FileInfo>::empty());
        }
        assert(out@.to_multiset() =~= v@.to_multiset());
    }
    out
}

} // verus!
