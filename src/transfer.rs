//! Checks on a downloaded file before it is uploaded again.

use vstd::prelude::*;

use crate::text::{chars_of, push_char};

verus! {

/// The largest file, in bytes, that may be uploaded.
pub const UPLOAD_LIMIT: u64 = 2 * 1024 * 1024 * 1024;

/// Whether a downloaded file may be uploaded, and if not, why.
#[derive(Clone, Copy, Debug, PartialEq, Eq, Structural)]
pub enum DownloadCheck {
    /// The file may be uploaded.
    Ready,
    /// Nothing was downloaded.
    Empty,
    /// The file is larger than the upload limit.
    TooLarge,
    /// The server announced another length than what arrived.
    SizeMismatch,
}

/// Checks a download of `size` bytes whose server announced `content_length`, if anything:
/// empty first, then over the limit, then a length that differs from the one announced.
pub fn check_download(size: u64, content_length: Option<u64>) -> (r: DownloadCheck)
    ensures
        r == (if size == 0 {
            DownloadCheck::Empty
        } else if size > UPLOAD_LIMIT {
            DownloadCheck::TooLarge
        } else if content_length is Some && content_length.unwrap() != size {
            DownloadCheck::SizeMismatch
        } else {
            DownloadCheck::Ready
        }),
{
    if size == 0 {
        DownloadCheck::Empty
    } else if size > UPLOAD_LIMIT {
        DownloadCheck::TooLarge
    } else {
        match content_length {
            Some(length) => {
                if length != size {
                    DownloadCheck::SizeMismatch
                } else {
                    DownloadCheck::Ready
                }
            },
            None => DownloadCheck::Ready,
        }
    }
}

/// `p` occurs in `s` at `i`.
pub open spec fn occurs_at(s: Seq<char>, p: Seq<char>, i: int) -> bool {
    &&& 0 <= i
    &&& i + p.len() <= s.len()
    &&& s.subrange(i, i + p.len()) == p
}

/// `i` is the last place where `p` occurs in `s`.
pub open spec fn last_occurrence(s: Seq<char>, p: Seq<char>, i: int) -> bool {
    &&& occurs_at(s, p, i)
    &&& forall|j: int| i < j ==> !#[trigger] occurs_at(s, p, j)
}

/// What follows the last occurrence of `p` in `s`, or all of `s` when `p` does not occur.
pub open spec fn after_last(s: Seq<char>, p: Seq<char>) -> Seq<char> {
    if exists|i: int| last_occurrence(s, p, i) {
        let i = choose|i: int| last_occurrence(s, p, i);
        s.subrange(i + p.len(), s.len() as int)
    } else {
        s
    }
}

/// The characters of `s` but its double quotes, in order.
pub open spec fn without_quotes(s: Seq<char>) -> Seq<char>
    decreases s.len(),
{
    if s.len() == 0 {
        s
    } else if s.last() == '"' {
        without_quotes(s.drop_last())
    } else {
        without_quotes(s.drop_last()).push(s.last())
    }
}

/// The name a download is saved under: from the content disposition, what follows its last
/// "filename=" with every double quote taken out; without one, what follows the URL's last '/'.
pub open spec fn download_name_spec(disposition: Option<Seq<char>>, url: Seq<char>) -> Seq<char> {
    match disposition {
        Some(d) => without_quotes(after_last(d, "filename="@)),
        None => after_last(url, seq!['/']),
    }
}

fn occurs_here(s: &Vec<char>, p: &Vec<char>, i: usize) -> (r: bool)
    requires
        i + p@.len() <= s@.len(),
    ensures
        r == occurs_at(s@, p@, i as int),
{
    let n = s.len();
    let m = p.len();
    let mut k: usize = 0;
    while k < m
        invariant
            n == s@.len(),
            m == p@.len(),
            i + m <= n,
            k <= m,
            forall|j: int| 0 <= j < k ==> s@[i + j] == #[trigger] p@[j],
        decreases m - k,
    {
        if s[i + k] != p[k] {
            assert(s@.subrange(i as int, i + p@.len())[k as int] != p@[k as int]);
            return false;
        }
        k = k + 1;
    }
    assert(s@.subrange(i as int, i + p@.len()) =~= p@);
    true
}

/// The characters after the last occurrence of `p`, or all of them.
fn tail_after_last(s: &Vec<char>, p: &Vec<char>) -> (r: Vec<char>)
    ensures
        r@ == after_last(s@, p@),
{
    let n = s.len();
    let m = p.len();
    let mut last: Option<usize> = None;
    if m <= n {
        let mut i: usize = 0;
        loop
            invariant_except_break
                last matches Some(k) ==> k < i && occurs_at(s@, p@, k as int),
                last matches Some(k) ==> forall|j: int| k < j < i ==> !#[trigger] occurs_at(s@, p@, j),
                last is None ==> forall|j: int| 0 <= j < i ==> !#[trigger] occurs_at(s@, p@, j),
            invariant
                m <= n,
                n == s@.len(),
                m == p@.len(),
                i <= n - m,
            ensures
                last matches Some(k) ==> occurs_at(s@, p@, k as int),
                last matches Some(k) ==> forall|j: int| k < j ==> !#[trigger] occurs_at(s@, p@, j),
                last is None ==> forall|j: int| 0 <= j ==> !#[trigger] occurs_at(s@, p@, j),
            decreases n - m - i,
        {
            if occurs_here(s, p, i) {
                last = Some(i);
            }
            if i == n - m {
                break;
            }
            i = i + 1;
        }
    }
    let from: usize = match last {
        Some(k) => {
            proof {
                assert(last_occurrence(s@, p@, k as int));
                let c = choose|c: int| last_occurrence(s@, p@, c);
                if c < k {
                    assert(occurs_at(s@, p@, k as int));
                } else if c > k {
                    assert(occurs_at(s@, p@, c));
                }
            }
            k + m
        },
        None => {
            proof {
                assert forall|j: int| !last_occurrence(s@, p@, j) by {
                    if last_occurrence(s@, p@, j) {
                        assert(occurs_at(s@, p@, j));
                    }
                }
            }
            0
        },
    };
    let mut r: Vec<char> = Vec::new();
    let mut k: usize = from;
    while k < n
        invariant
            n == s@.len(),
            from <= n,
            from <= k <= n,
            r@ == s@.subrange(from as int, k as int),
        decreases n - k,
    {
        r.push(s[k]);
        k = k + 1;
        assert(r@ =~= s@.subrange(from as int, k as int));
    }
    assert(r@ =~= s@.subrange(from as int, n as int));
    r
}

/// The name a download is saved under: from the content disposition, what follows its last
/// "filename=" with every double quote taken out; without one, what follows the URL's last '/'.
pub fn download_name(disposition: Option<&str>, url: &str) -> (r: String)
    ensures
        r@ == download_name_spec(
            match disposition {
                Some(d) => Some(d@),
                None => None,
            },
            url@,
        ),
{
    match disposition {
        Some(d) => {
            let pattern = chars_of("filename=");
            let tail = tail_after_last(&chars_of(d), &pattern);
            let mut r = String::new();
            let mut k: usize = 0;
            while k < tail.len()
                invariant
                    k <= tail@.len(),
                    r@ == without_quotes(tail@.subrange(0, k as int)),
                decreases tail@.len() - k,
            {
                proof {
                    assert(tail@.subrange(0, k as int + 1).drop_last() =~= tail@.subrange(0, k as int));
                }
                if tail[k] != '"' {
                    push_char(&mut r, tail[k]);
                }
                k = k + 1;
            }
            assert(tail@.subrange(0, k as int) =~= tail@);
            proof {
                assert(pattern@ == "filename="@);
            }
            r
        },
        None => {
            let mut slash: Vec<char> = Vec::new();
            slash.push('/');
            let tail = tail_after_last(&chars_of(url), &slash);
            let mut r = String::new();
            let mut k: usize = 0;
            while k < tail.len()
                invariant
                    k <= tail@.len(),
                    r@ == tail@.subrange(0, k as int),
                decreases tail@.len() - k,
            {
                push_char(&mut r, tail[k]);
                k = k + 1;
                assert(r@ =~= tail@.subrange(0, k as int));
            }
            assert(slash@ =~= seq!['/']);
            r
        },
    }
}

} // verus!
