//! Building display text: decimal numbers and character-level appends.

use vstd::prelude::*;

verus! {

/// The ASCII digit for a value below ten.
pub open spec fn digit_char(d: nat) -> char {
    if d == 0 { '0' }
    else if d == 1 { '1' }
    else if d == 2 { '2' }
    else if d == 3 { '3' }
    else if d == 4 { '4' }
    else if d == 5 { '5' }
    else if d == 6 { '6' }
    else if d == 7 { '7' }
    else if d == 8 { '8' }
    else { '9' }
}

/// The decimal digits of a natural number, most significant first, without leading zeros.
pub open spec fn decimal(n: nat) -> Seq<char>
    decreases n,
{
    if n < 10 {
        seq![digit_char(n)]
    } else {
        decimal(n / 10).push(digit_char(n % 10))
    }
}

/// The decimal text of an integer, with a leading '-' when it is negative.
pub open spec fn int_text(i: int) -> Seq<char> {
    if i < 0 {
        seq!['-'] + decimal((-i) as nat)
    } else {
        decimal(i as nat)
    }
}

/// An ASCII decimal digit.
pub open spec fn is_digit(c: char) -> bool {
    c == '0' || c == '1' || c == '2' || c == '3' || c == '4' || c == '5' || c == '6' || c == '7'
        || c == '8' || c == '9'
}

/// The value of a decimal digit.
pub open spec fn digit_value(c: char) -> nat {
    if c == '1' { 1 }
    else if c == '2' { 2 }
    else if c == '3' { 3 }
    else if c == '4' { 4 }
    else if c == '5' { 5 }
    else if c == '6' { 6 }
    else if c == '7' { 7 }
    else if c == '8' { 8 }
    else if c == '9' { 9 }
    else { 0 }
}

/// The number that a run of decimal digits writes.
pub open spec fn digits_value(s: Seq<char>) -> nat
    decreases s.len(),
{
    if s.len() == 0 {
        0
    } else {
        digits_value(s.drop_last()) * 10 + digit_value(s.last())
    }
}

/// Every character is a decimal digit.
pub open spec fn all_digits(s: Seq<char>) -> bool {
    forall|i: int| 0 <= i < s.len() ==> is_digit(#[trigger] s[i])
}

/// A run of digits as `decimal` writes it: not empty, and no leading zero.
pub open spec fn canonical(s: Seq<char>) -> bool {
    &&& s.len() >= 1
    &&& all_digits(s)
    &&& (s.len() > 1 ==> s[0] != '0')
}

proof fn lemma_decimal_canonical(n: nat)
    ensures
        canonical(decimal(n)),
        n >= 1 ==> decimal(n)[0] != '0',
        digits_value(decimal(n)) == n,
    decreases n,
{
    if n >= 10 {
        lemma_decimal_canonical(n / 10);
        let d = decimal(n / 10);
        let s = decimal(n);
        assert(s == d.push(digit_char(n % 10)));
        assert(s.drop_last() =~= d);
        assert(s[0] == d[0]);
        assert(digit_value(digit_char(n % 10)) == n % 10);
        assert(n == (n / 10) * 10 + n % 10);
    } else {
        let s = decimal(n);
        assert(s.drop_last() =~= Seq::<char>::empty());
        assert(digits_value(Seq::<char>::empty()) == 0);
        assert(digit_value(digit_char(n)) == n);
    }
}

proof fn lemma_value_positive(s: Seq<char>)
    requires
        s.len() >= 1,
        all_digits(s),
        s[0] != '0',
    ensures
        digits_value(s) >= 1,
    decreases s.len(),
{
    if s.len() > 1 {
        let t = s.drop_last();
        assert(t[0] == s[0]);
        lemma_value_positive(t);
    }
}

proof fn lemma_canonical_decimal(s: Seq<char>)
    requires
        canonical(s),
    ensures
        decimal(digits_value(s)) == s,
    decreases s.len(),
{
    let v = digits_value(s);
    if s.len() == 1 {
        assert(s.drop_last() =~= Seq::<char>::empty());
        assert(digits_value(Seq::<char>::empty()) == 0);
        assert(is_digit(s[0]));
        assert(v == digit_value(s[0]));
        assert(v < 10);
        assert(digit_char(v) == s[0]);
        assert(decimal(v) =~= s);
    } else {
        let t = s.drop_last();
        assert(t[0] == s[0]);
        assert(canonical(t));
        lemma_canonical_decimal(t);
        lemma_value_positive(t);
        let w = digits_value(t);
        let d = digit_value(s.last());
        assert(is_digit(s.last()));
        assert(v == w * 10 + d);
        assert(v / 10 == w && v % 10 == d) by (nonlinear_arith)
            requires v == w * 10 + d, d < 10;
        assert(decimal(v) =~= s);
    }
}

proof fn lemma_value_grows(s: Seq<char>, k: int)
    requires
        0 <= k <= s.len(),
    ensures
        digits_value(s.subrange(0, k)) <= digits_value(s),
    decreases s.len(),
{
    if k < s.len() {
        let t = s.drop_last();
        lemma_value_grows(t, k);
        assert(t.subrange(0, k) =~= s.subrange(0, k));
    } else {
        assert(s.subrange(0, k) =~= s);
    }
}

fn digit_value_of(c: char) -> (r: Option<u64>)
    ensures
        r is Some <==> is_digit(c),
        r matches Some(d) ==> d == digit_value(c) && d < 10,
{
    if c == '0' { Some(0) }
    else if c == '1' { Some(1) }
    else if c == '2' { Some(2) }
    else if c == '3' { Some(3) }
    else if c == '4' { Some(4) }
    else if c == '5' { Some(5) }
    else if c == '6' { Some(6) }
    else if c == '7' { Some(7) }
    else if c == '8' { Some(8) }
    else if c == '9' { Some(9) }
    else { None }
}

/// `t[start..e]` is a number written as `decimal` writes it, and ends the run of digits.
pub open spec fn number_at(t: Seq<char>, start: int, e: int, v: nat) -> bool {
    &&& start < e <= t.len()
    &&& t.subrange(start, e) == decimal(v)
    &&& (e == t.len() || !is_digit(t[e]))
}

/// A number written at `start` ends at one place only, and has one value only.
pub(crate) proof fn lemma_number_unique(t: Seq<char>, start: int, e1: int, v1: nat, e2: int, v2: nat)
    requires
        0 <= start,
        number_at(t, start, e1, v1),
        number_at(t, start, e2, v2),
    ensures
        e1 == e2,
        v1 == v2,
{
    lemma_decimal_canonical(v1);
    lemma_decimal_canonical(v2);
    let s1 = t.subrange(start, e1);
    let s2 = t.subrange(start, e2);
    if e1 < e2 {
        assert(s2[e1 - start] == t[e1]);
        assert(is_digit(s2[e1 - start]));
    } else if e2 < e1 {
        assert(s1[e2 - start] == t[e2]);
        assert(is_digit(s1[e2 - start]));
    }
    assert(decimal(v1) == decimal(v2));
}

/// Reads the number that starts at `start`: the whole run of digits there, as `decimal`
/// writes it, and at most `limit`. Returns it with the position after it.
pub(crate) fn read_number(t: &Vec<char>, start: usize, limit: u64) -> (r: Option<(u64, usize)>)
    requires
        start <= t@.len(),
        limit <= 0xFFFF_FFFF_FFFF,
    ensures
        r matches Some((v, e)) ==> v <= limit && number_at(t@, start as int, e as int, v as nat),
        r matches Some((v, e)) ==> forall|v2: nat, e2: int| #[trigger] number_at(t@, start as int, e2, v2)
            ==> v2 == v && e2 == e,
        r is None ==> forall|v2: nat, e2: int| v2 <= limit ==> !#[trigger] number_at(t@, start as int, e2, v2),
{
    let n = t.len();
    let mut i: usize = start;
    let mut v: u64 = 0;
    loop
        invariant
            n == t@.len(),
            start <= i <= n,
            all_digits(t@.subrange(start as int, i as int)),
            v == digits_value(t@.subrange(start as int, i as int)),
            v <= limit,
            limit <= 0xFFFF_FFFF_FFFF,
        ensures
            start <= i <= n,
            all_digits(t@.subrange(start as int, i as int)),
            v == digits_value(t@.subrange(start as int, i as int)),
            v <= limit,
            i == n || !is_digit(t@[i as int]),
        decreases n - i,
    {
        if i >= n {
            break;
        }
        let d = match digit_value_of(t[i]) {
            Some(d) => d,
            None => {
                break;
            },
        };
        let ghost before = t@.subrange(start as int, i as int);
        let w = v * 10 + d;
        proof {
            let after = t@.subrange(start as int, i as int + 1);
            assert(after.drop_last() =~= before);
            assert(all_digits(after));
        }
        if w > limit {
            proof {
                let run = t@.subrange(start as int, i as int + 1);
                assert forall|v2: nat, e2: int| v2 <= limit implies !#[trigger] number_at(t@, start as int, e2, v2) by {
                    if number_at(t@, start as int, e2, v2) {
                        lemma_decimal_canonical(v2);
                        let sub = t@.subrange(start as int, e2);
                        if e2 <= i {
                            assert(run[e2 - start] == t@[e2]);
                            assert(is_digit(run[e2 - start]));
                        }
                        assert(sub.subrange(0, i + 1 - start) =~= run);
                        lemma_value_grows(sub, i + 1 - start);
                    }
                }
            }
            return None;
        }
        v = w;
        i = i + 1;
    }
    let ghost run = t@.subrange(start as int, i as int);
    proof {
        assert forall|v2: nat, e2: int| #[trigger] number_at(t@, start as int, e2, v2) implies e2 == i by {
            lemma_decimal_canonical(v2);
            let sub = t@.subrange(start as int, e2);
            if e2 < i {
                assert(run[e2 - start] == t@[e2]);
                assert(is_digit(run[e2 - start]));
            } else if e2 > i {
                assert(sub[i - start] == t@[i as int]);
                assert(is_digit(sub[i - start]));
            }
        }
    }
    if i == start {
        proof {
            assert forall|v2: nat, e2: int| v2 <= limit implies !#[trigger] number_at(t@, start as int, e2, v2) by {
                if number_at(t@, start as int, e2, v2) {
                    assert(e2 == i);
                }
            }
        }
        return None;
    }
    if i - start > 1 && t[start] == '0' {
        proof {
            assert forall|v2: nat, e2: int| v2 <= limit implies !#[trigger] number_at(t@, start as int, e2, v2) by {
                if number_at(t@, start as int, e2, v2) {
                    lemma_decimal_canonical(v2);
                    assert(e2 == i);
                    assert(run[0] == t@[start as int]);
                }
            }
        }
        return None;
    }
    proof {
        assert(run[0] == t@[start as int]);
        assert(canonical(run));
        lemma_canonical_decimal(run);
        assert forall|v2: nat, e2: int| #[trigger] number_at(t@, start as int, e2, v2) implies v2 == v && e2 == i by {
            lemma_decimal_canonical(v2);
            assert(e2 == i);
        }
    }
    Some((v, i))
}

/// A character with the Unicode White_Space property, as `char::is_whitespace` tests it.
pub open spec fn is_space(c: char) -> bool {
    let u = c as u32;
    ||| 0x09 <= u <= 0x0D
    ||| u == 0x20
    ||| u == 0x85
    ||| u == 0xA0
    ||| u == 0x1680
    ||| 0x2000 <= u <= 0x200A
    ||| u == 0x2028
    ||| u == 0x2029
    ||| u == 0x202F
    ||| u == 0x205F
    ||| u == 0x3000
}

fn space(c: char) -> (r: bool)
    ensures
        r == is_space(c),
{
    let u = c as u32;
    (0x09 <= u && u <= 0x0D) || u == 0x20 || u == 0x85 || u == 0xA0 || u == 0x1680 || (0x2000 <= u
        && u <= 0x200A) || u == 0x2028 || u == 0x2029 || u == 0x202F || u == 0x205F || u == 0x3000
}

/// The words of a text: its maximal runs of characters that are not white space, in order.
pub open spec fn words_spec(s: Seq<char>) -> Seq<Seq<char>>
    decreases s.len(),
{
    if s.len() == 0 {
        Seq::empty()
    } else {
        let w = words_spec(s.drop_last());
        let c = s.last();
        if is_space(c) {
            w
        } else if s.len() >= 2 && !is_space(s[s.len() - 2]) {
            w.update(w.len() - 1, w.last().push(c))
        } else {
            w.push(seq![c])
        }
    }
}

proof fn lemma_words_nonempty(s: Seq<char>)
    requires
        s.len() >= 1,
        !is_space(s.last()),
    ensures
        words_spec(s).len() >= 1,
    decreases s.len(),
{
    if s.len() >= 2 && !is_space(s[s.len() - 2]) {
        let t = s.drop_last();
        assert(t.last() == s[s.len() - 2]);
        lemma_words_nonempty(t);
    }
}

/// The words of the text, as `split_whitespace` gives them.
pub fn words(text: &str) -> (r: Vec<String>)
    ensures
        r@.len() == words_spec(text@).len(),
        forall|i: int| 0 <= i < r@.len() ==> #[trigger] r@[i]@ == words_spec(text@)[i],
{
    let n = text.unicode_len();
    let mut acc: Vec<Vec<char>> = Vec::new();
    let mut prev_space = true;
    let mut i: usize = 0;
    while i < n
        invariant
            n == text@.len(),
            i <= n,
            prev_space == (i == 0 || is_space(text@[i - 1])),
            acc@.len() == words_spec(text@.subrange(0, i as int)).len(),
            forall|k: int| 0 <= k < acc@.len() ==> #[trigger] acc@[k]@ == words_spec(text@.subrange(0, i as int))[k],
        decreases n - i,
    {
        let c = text.get_char(i);
        let ghost before = text@.subrange(0, i as int);
        let ghost after = text@.subrange(0, i as int + 1);
        proof {
            assert(after.drop_last() =~= before);
            assert(after.last() == c);
            if i >= 1 {
                assert(after[after.len() - 2] == text@[i - 1]);
                assert(before.last() == text@[i - 1]);
            }
        }
        let is_sp = space(c);
        if !is_sp {
            if prev_space {
                acc.push(vec![c]);
                proof {
                    assert(acc@.last()@ =~= seq![c]);
                }
            } else {
                proof {
                    lemma_words_nonempty(before);
                }
                let last = acc.len() - 1;
                let mut word = Vec::new();
                std::mem::swap(&mut word, &mut acc[last]);
                word.push(c);
                acc.set(last, word);
            }
        }
        i = i + 1;
        prev_space = is_sp;
    }
    assert(text@.subrange(0, n as int) =~= text@);
    let ghost ws = words_spec(text@);
    let mut r: Vec<String> = Vec::new();
    let mut k: usize = 0;
    while k < acc.len()
        invariant
            acc@.len() == ws.len(),
            forall|j: int| 0 <= j < acc@.len() ==> #[trigger] acc@[j]@ == ws[j],
            k <= acc@.len(),
            r@.len() == k,
            forall|j: int| 0 <= j < k ==> #[trigger] r@[j]@ == ws[j],
        decreases acc@.len() - k,
    {
        let mut w = String::new();
        let mut j: usize = 0;
        while j < acc[k].len()
            invariant
                k < acc@.len(),
                j <= acc@[k as int]@.len(),
                w@ == acc@[k as int]@.subrange(0, j as int),
            decreases acc@[k as int]@.len() - j,
        {
            push_char(&mut w, acc[k][j]);
            j = j + 1;
            assert(w@ =~= acc@[k as int]@.subrange(0, j as int));
        }
        assert(w@ =~= acc@[k as int]@);
        r.push(w);
        k = k + 1;
    }
    r
}

/// The characters of a text, one by one.
pub(crate) fn chars_of(s: &str) -> (r: Vec<char>)
    ensures
        r@ == s@,
{
    let n = s.unicode_len();
    let mut r: Vec<char> = Vec::new();
    let mut i: usize = 0;
    while i < n
        invariant
            n == s@.len(),
            i <= n,
            r@ == s@.subrange(0, i as int),
        decreases n - i,
    {
        r.push(s.get_char(i));
        i = i + 1;
        assert(r@ =~= s@.subrange(0, i as int));
    }
    assert(r@ =~= s@);
    r
}

/// Relies on `String::push`: the character is appended at the end.
#[verifier::external_body]
pub(crate) fn push_char(s: &mut String, c: char)
    ensures
        final(s)@ == old(s)@.push(c),
{
    s.push(c);
}

/// Appends `t` at the end of `s`.
pub(crate) fn push_str(s: &mut String, t: &str)
    ensures
        final(s)@ == old(s)@ + t@,
{
    s.append(t);
}

fn digit_of(d: u64) -> (c: char)
    requires
        d < 10,
    ensures
        c == digit_char(d as nat),
{
    if d == 0 { '0' }
    else if d == 1 { '1' }
    else if d == 2 { '2' }
    else if d == 3 { '3' }
    else if d == 4 { '4' }
    else if d == 5 { '5' }
    else if d == 6 { '6' }
    else if d == 7 { '7' }
    else if d == 8 { '8' }
    else { '9' }
}

/// Appends the decimal digits of `n`.
pub(crate) fn push_decimal(s: &mut String, n: u64)
    ensures
        final(s)@ == old(s)@ + decimal(n as nat),
    decreases n,
{
    if n >= 10 {
        push_decimal(s, n / 10);
    }
    let c = digit_of(n % 10);
    push_char(s, c);
    proof {
        if n >= 10 {
            assert(old(s)@ + decimal(n as nat) =~= old(s)@ + decimal((n / 10) as nat) + seq![c]);
        } else {
            assert(old(s)@ + decimal(n as nat) =~= old(s)@.push(c));
        }
    }
}

/// Appends the decimal text of `i`, with a leading '-' when it is negative.
pub(crate) fn push_int(s: &mut String, i: i64)
    ensures
        final(s)@ == old(s)@ + int_text(i as int),
{
    if i < 0 {
        push_char(s, '-');
        let m: u64 = if i == i64::MIN { 9223372036854775808u64 } else { (-i) as u64 };
        push_decimal(s, m);
        assert(old(s)@ + int_text(i as int) =~= old(s)@.push('-') + decimal(m as nat));
    } else {
        push_decimal(s, i as u64);
    }
}

/// The decimal text of `i`, as `i.to_string()` writes it.
pub fn int_to_text(i: i64) -> (r: String)
    ensures
        r@ == int_text(i as int),
{
    let mut s = String::new();
    push_int(&mut s, i);
    assert(s@ =~= int_text(i as int));
    s
}

} // verus!
