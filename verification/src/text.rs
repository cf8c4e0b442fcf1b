use vstd::prelude::*;
use vstd::string::*;

verus! {

broadcast use vstd::string::group_string_axioms;

// ---------------------------------------------------------------------------
// Whitespace and words
// ---------------------------------------------------------------------------

/// Unicode's `White_Space` property, which is what `char::is_whitespace`
/// tests: U+0009..U+000D, U+0020, U+0085, U+00A0, U+1680, U+2000..U+200A,
/// U+2028, U+2029, U+202F, U+205F and U+3000.
pub open spec fn is_white(c: char) -> bool {
    let u = c as u32;
    ||| 0x09 <= u <= 0x0d
    ||| u == 0x20
    ||| u == 0x85
    ||| u == 0xa0
    ||| u == 0x1680
    ||| 0x2000 <= u <= 0x200a
    ||| u == 0x2028
    ||| u == 0x2029
    ||| u == 0x202f
    ||| u == 0x205f
    ||| u == 0x3000
}

/// No character of `s` is whitespace.
pub open spec fn no_white(s: Seq<char>) -> bool {
    forall|i: int| 0 <= i < s.len() ==> !is_white(#[trigger] s[i])
}

/// Scanning `s` from the left: the words completed so far, and the word
/// that is still open (empty when the last character was whitespace).
pub open spec fn scan_words(s: Seq<char>) -> (Seq<Seq<char>>, Seq<char>)
    decreases s.len(),
{
    if s.len() == 0 {
        (Seq::empty(), Seq::empty())
    } else {
        let (done, open) = scan_words(s.drop_last());
        let c = s.last();
        if is_white(c) {
            if open.len() > 0 {
                (done.push(open), Seq::empty())
            } else {
                (done, Seq::empty())
            }
        } else {
            (done, open.push(c))
        }
    }
}

/// The maximal runs of non-whitespace characters of `s`, in order: what
/// `str::split_whitespace` yields.
pub open spec fn words(s: Seq<char>) -> Seq<Seq<char>> {
    let (done, open) = scan_words(s);
    if open.len() > 0 {
        done.push(open)
    } else {
        done
    }
}

/// Scanning on through a run of non-whitespace only extends the open word.
pub proof fn lemma_scan_word(x: Seq<char>, w: Seq<char>)
    requires
        no_white(w),
    ensures
        scan_words(x + w) == (scan_words(x).0, scan_words(x).1 + w),
    decreases w.len(),
{
    if w.len() == 0 {
        assert(x + w =~= x);
        assert(scan_words(x).1 + w =~= scan_words(x).1);
    } else {
        let w0 = w.drop_last();
        assert(no_white(w0)) by {
            assert forall|i: int| 0 <= i < w0.len() implies !is_white(#[trigger] w0[i]) by {
                assert(w0[i] == w[i]);
            }
        }
        lemma_scan_word(x, w0);
        assert((x + w).drop_last() =~= x + w0);
        assert((x + w).last() == w.last());
        assert(!is_white(w[w.len() - 1]));
        assert((scan_words(x).1 + w0).push(w.last()) =~= scan_words(x).1 + w);
    }
}

/// A whitespace character closes the open word, if there is one.
pub proof fn lemma_scan_white(x: Seq<char>, c: char)
    requires
        is_white(c),
    ensures
        scan_words(x.push(c)) == (if scan_words(x).1.len() > 0 {
            scan_words(x).0.push(scan_words(x).1)
        } else {
            scan_words(x).0
        }, Seq::<char>::empty()),
{
    assert(x.push(c).drop_last() =~= x);
}

/// Scanning further never takes back a completed word.
pub proof fn lemma_scan_keeps_done(x: Seq<char>, y: Seq<char>)
    ensures
        scan_words(x).0.len() <= scan_words(x + y).0.len(),
        scan_words(x + y).0.take(scan_words(x).0.len() as int) == scan_words(x).0,
    decreases y.len(),
{
    if y.len() == 0 {
        assert(x + y =~= x);
        assert(scan_words(x).0.take(scan_words(x).0.len() as int) =~= scan_words(x).0);
    } else {
        let y0 = y.drop_last();
        lemma_scan_keeps_done(x, y0);
        assert((x + y).drop_last() =~= x + y0);
        let d0 = scan_words(x + y0).0;
        let d = scan_words(x + y).0;
        let k = scan_words(x).0.len() as int;
        assert(d.take(k) =~= d0.take(k));
    }
}

/// The words of a text start with the words completed while scanning it.
pub proof fn lemma_words_keep_done(x: Seq<char>)
    ensures
        scan_words(x).0.len() <= words(x).len(),
        words(x).take(scan_words(x).0.len() as int) == scan_words(x).0,
{
    assert(words(x).take(scan_words(x).0.len() as int) =~= scan_words(x).0);
}

/// The characters of `s` that are not whitespace, in order.
pub open spec fn strip_white(s: Seq<char>) -> Seq<char>
    decreases s.len(),
{
    if s.len() == 0 {
        Seq::empty()
    } else if is_white(s.last()) {
        strip_white(s.drop_last())
    } else {
        strip_white(s.drop_last()).push(s.last())
    }
}

/// The pieces of `list` put end to end.
pub open spec fn concat_all(list: Seq<Seq<char>>) -> Seq<char>
    decreases list.len(),
{
    if list.len() == 0 {
        Seq::empty()
    } else {
        concat_all(list.drop_last()) + list.last()
    }
}

/// While scanning, the completed words are non-empty and free of
/// whitespace, the open word is free of whitespace, and together they hold
/// exactly the non-whitespace characters scanned so far.
proof fn lemma_scan_shape(s: Seq<char>)
    ensures
        forall|i: int|
            0 <= i < scan_words(s).0.len() ==> #[trigger] scan_words(s).0[i].len() > 0
                && no_white(scan_words(s).0[i]),
        no_white(scan_words(s).1),
        concat_all(scan_words(s).0) + scan_words(s).1 == strip_white(s),
    decreases s.len(),
{
    if s.len() == 0 {
        assert(concat_all(scan_words(s).0) + scan_words(s).1 =~= strip_white(s));
    } else {
        let x = s.drop_last();
        let c = s.last();
        lemma_scan_shape(x);
        let (done, open) = scan_words(x);
        if is_white(c) {
            if open.len() > 0 {
                assert(done.push(open).drop_last() =~= done);
                assert(concat_all(done.push(open)) + Seq::<char>::empty() =~= concat_all(done)
                    + open);
            } else {
                assert(concat_all(done) + Seq::<char>::empty() =~= concat_all(done) + open);
            }
        } else {
            assert forall|i: int| 0 <= i < open.push(c).len() implies !is_white(
                #[trigger] open.push(c)[i],
            ) by {
                if i < open.len() {
                    assert(open.push(c)[i] == open[i]);
                }
            }
            assert(concat_all(done) + open.push(c) =~= (concat_all(done) + open).push(c));
        }
    }
}

/// The words of a text are non-empty and hold no whitespace; put end to end
/// they are exactly its non-whitespace characters; and a non-empty text
/// without whitespace is one word.
pub proof fn law_words_shape(s: Seq<char>)
    ensures
        forall|i: int|
            0 <= i < words(s).len() ==> #[trigger] words(s)[i].len() > 0 && no_white(words(s)[i]),
        concat_all(words(s)) == strip_white(s),
        no_white(s) && s.len() > 0 ==> words(s) == seq![s],
{
    lemma_scan_shape(s);
    let (done, open) = scan_words(s);
    if open.len() > 0 {
        assert(done.push(open).drop_last() =~= done);
        assert forall|i: int| 0 <= i < words(s).len() implies #[trigger] words(s)[i].len() > 0
            && no_white(words(s)[i]) by {
            if i < done.len() {
                assert(words(s)[i] == done[i]);
            }
        }
    } else {
        assert(concat_all(done) + open =~= concat_all(done));
    }
    if no_white(s) && s.len() > 0 {
        let e: Seq<char> = Seq::empty();
        lemma_scan_word(e, s);
        assert(e + s =~= s);
        assert(scan_words(e) == (Seq::<Seq<char>>::empty(), e));
        assert(scan_words(e).1 + s =~= s);
        assert(words(s) =~= seq![s]);
    }
}

/// `c.is_whitespace()`, written out over the code points of `is_white`.
pub fn is_whitespace_char(c: char) -> (b: bool)
    ensures
        b == is_white(c),
{
    let u = c as u32;
    (0x09 <= u && u <= 0x0d) || u == 0x20 || u == 0x85 || u == 0xa0 || u == 0x1680 || (0x2000
        <= u && u <= 0x200a) || u == 0x2028 || u == 0x2029 || u == 0x202f || u == 0x205f || u
        == 0x3000
}

/// `s.split_whitespace()`, collected.
pub fn split_words(s: &str) -> (out: Vec<String>)
    ensures
        views_of(out@) == words(s@),
{
    let chars = chars_of(s);
    let n = chars.len();
    let mut done: Vec<String> = Vec::new();
    let mut start: usize = 0;
    let mut i: usize = 0;
    while i < n
        invariant
            n == chars@.len(),
            chars@ == s@,
            0 <= start <= i <= n,
            scan_words(chars@.take(i as int)) == (views_of(done@), chars@.subrange(
                start as int,
                i as int,
            )),
        decreases n - i,
    {
        let ghost before = views_of(done@);
        assert(chars@.take(i + 1).drop_last() =~= chars@.take(i as int));
        assert(chars@.take(i + 1).last() == chars@[i as int]);
        if is_whitespace_char(chars[i]) {
            if start < i {
                let word = string_of(&chars, start, i);
                done.push(word);
                assert(views_of(done@) =~= before.push(chars@.subrange(start as int, i as int)));
            }
            start = i + 1;
            assert(chars@.subrange(start as int, i + 1) =~= Seq::<char>::empty());
        } else {
            assert(chars@.subrange(start as int, i + 1) =~= chars@.subrange(
                start as int,
                i as int,
            ).push(chars@[i as int]));
        }
        i = i + 1;
    }
    assert(chars@.take(n as int) =~= chars@);
    if start < n {
        let ghost before = views_of(done@);
        let word = string_of(&chars, start, n);
        done.push(word);
        assert(views_of(done@) =~= before.push(chars@.subrange(start as int, n as int)));
    }
    done
}

// ---------------------------------------------------------------------------
// Joining
// ---------------------------------------------------------------------------

/// The pieces of `list` with `sep` between each two neighbours: what
/// `[String]::join(sep)` returns.
pub open spec fn join(list: Seq<Seq<char>>, sep: Seq<char>) -> Seq<char>
    decreases list.len(),
{
    if list.len() == 0 {
        Seq::empty()
    } else if list.len() == 1 {
        list[0]
    } else {
        list[0] + sep + join(list.drop_first(), sep)
    }
}

/// The characters of each string of `v`.
pub open spec fn views_of(v: Seq<String>) -> Seq<Seq<char>> {
    v.map_values(|s: String| s@)
}

/// Joining one more piece at the end.
pub proof fn lemma_join_push(list: Seq<Seq<char>>, sep: Seq<char>, x: Seq<char>)
    requires
        list.len() > 0,
    ensures
        join(list.push(x), sep) == join(list, sep) + sep + x,
    decreases list.len(),
{
    if list.len() == 1 {
        assert(list.push(x).drop_first() =~= seq![x]);
        assert(join(seq![x], sep) == x);
    } else {
        assert(list.push(x).drop_first() =~= list.drop_first().push(x));
        lemma_join_push(list.drop_first(), sep, x);
        assert(list[0] + sep + (join(list.drop_first(), sep) + sep + x) =~= list[0] + sep + join(
            list.drop_first(),
            sep,
        ) + sep + x);
    }
}

/// `list.join(sep)` for a vector of strings.
pub fn join_strings(list: &Vec<String>, sep: &str) -> (out: String)
    ensures
        out@ == join(views_of(list@), sep@),
{
    let mut out = String::new();
    let n = list.len();
    let ghost pieces = views_of(list@);
    let mut i: usize = 0;
    while i < n
        invariant
            n == list.len(),
            pieces == views_of(list@),
            0 <= i <= n,
            out@ == join(pieces.take(i as int), sep@),
        decreases n - i,
    {
        proof {
            assert(pieces.take(i + 1) =~= pieces.take(i as int).push(pieces[i as int]));
            if i > 0 {
                lemma_join_push(pieces.take(i as int), sep@, pieces[i as int]);
            } else {
                assert(join(pieces.take(1), sep@) == pieces[0]);
            }
        }
        if i > 0 {
            out.append(sep);
        }
        out.append(list[i].as_str());
        i = i + 1;
    }
    assert(pieces.take(n as int) =~= pieces);
    out
}

// ---------------------------------------------------------------------------
// Characters and strings
// ---------------------------------------------------------------------------

/// `String::push`: appends one character at the end of the string.
#[verifier::external_body]
fn push_char(s: &mut String, c: char)
    ensures
        final(s)@ == old(s)@.push(c),
{
    s.push(c);
}

/// The characters of `s`, one by one.
pub fn chars_of(s: &str) -> (out: Vec<char>)
    ensures
        out@ == s@,
{
    let mut out: Vec<char> = Vec::new();
    for c in it: s.chars()
        invariant
            out@ == it.seq().take(it.index()),
    {
        out.push(c);
    }
    out
}

/// The string made of `chars[from..to]`.
pub fn string_of(chars: &Vec<char>, from: usize, to: usize) -> (out: String)
    requires
        from <= to <= chars.len(),
    ensures
        out@ == chars@.subrange(from as int, to as int),
{
    let mut out = String::new();
    let mut i = from;
    while i < to
        invariant
            from <= i <= to <= chars.len(),
            out@ == chars@.subrange(from as int, i as int),
        decreases to - i,
    {
        push_char(&mut out, chars[i]);
        assert(chars@.subrange(from as int, i + 1) =~= chars@.subrange(from as int, i as int).push(
            chars@[i as int],
        ));
        i = i + 1;
    }
    out
}

/// The text of a string literal as a `String`.
pub fn owned(s: &str) -> (out: String)
    ensures
        out@ == s@,
{
    String::from_str(s)
}

/// `a` followed by `b`.
pub fn str_concat(a: &str, b: &str) -> (out: String)
    ensures
        out@ == a@ + b@,
{
    let mut out = String::from_str(a);
    out.append(b);
    out
}

// ---------------------------------------------------------------------------
// Decimal numbers
// ---------------------------------------------------------------------------

/// The digit character for `d` (0..9).
pub open spec fn digit(d: nat) -> char {
    ((48 + d) as u8) as char
}

/// The decimal text of `n`, as `Display` writes an unsigned integer: no sign,
/// no leading zeros, "0" for zero.
pub open spec fn decimal(n: nat) -> Seq<char>
    decreases n,
{
    if n < 10 {
        seq![digit(n)]
    } else {
        decimal(n / 10).push(digit(n % 10))
    }
}

/// A decimal text is made of digits only.
pub proof fn lemma_decimal_digits(n: nat)
    ensures
        decimal(n).len() > 0,
        forall|i: int|
            0 <= i < decimal(n).len() ==> '0' <= #[trigger] decimal(n)[i] <= '9',
    decreases n,
{
    if n >= 10 {
        lemma_decimal_digits(n / 10);
    }
}

/// The digit character for `d`, which is below ten.
fn digit_char(d: u64) -> (c: char)
    requires
        d < 10,
    ensures
        c == digit(d as nat),
{
    let b: u8 = 48 + d as u8;
    b as char
}

/// Appends the decimal text of `n` to `out`.
fn push_decimal(out: &mut String, n: u64)
    ensures
        final(out)@ == old(out)@ + decimal(n as nat),
    decreases n,
{
    if n >= 10 {
        push_decimal(out, n / 10);
    }
    push_char(out, digit_char(n % 10));
    proof {
        if n >= 10 {
            assert(old(out)@ + decimal(n as nat) =~= old(out)@ + decimal((n / 10) as nat) + seq![
                digit((n % 10) as nat),
            ]);
        }
    }
}

/// The number that a text of decimal digits stands for.
pub open spec fn digits_value(s: Seq<char>) -> nat
    decreases s.len(),
{
    if s.len() == 0 {
        0
    } else {
        digits_value(s.drop_last()) * 10 + ((s.last() as u32) - 48) as nat
    }
}

/// The decimal text of `n` stands for `n`, and starts with '0' only when it
/// is "0".
pub proof fn law_decimal_value(n: nat)
    ensures
        digits_value(decimal(n)) == n,
        decimal(n).len() > 0,
        decimal(n)[0] == '0' ==> n == 0,
    decreases n,
{
    let d = n % 10;
    assert((((48 + d) as u8) as char) as u32 == 48 + d) by {
        vstd::utf8::char_u32_cast(((48 + d) as u8) as char, (48 + d) as u32);
    }
    if n < 10 {
        assert(decimal(n) =~= seq![digit(n)]);
        assert(decimal(n).drop_last() =~= Seq::<char>::empty());
        assert(d == n);
        assert(digits_value(decimal(n)) == digits_value(Seq::<char>::empty()) * 10 + d);
    } else {
        law_decimal_value(n / 10);
        assert(decimal(n).drop_last() =~= decimal(n / 10));
        assert(decimal(n).last() == digit(d));
        assert(((decimal(n).last() as u32) - 48) as nat == d);
        assert(digits_value(decimal(n)) == digits_value(decimal(n / 10)) * 10 + d);
        assert(n == (n / 10) * 10 + d);
        assert(decimal(n)[0] == decimal(n / 10)[0]);
        assert(n / 10 > 0);
    }
}

/// `n.to_string()` for an unsigned integer.
pub fn decimal_string(n: u64) -> (out: String)
    ensures
        out@ == decimal(n as nat),
{
    let mut out = String::new();
    push_decimal(&mut out, n);
    assert(out@ =~= decimal(n as nat));
    out
}

} // verus!
