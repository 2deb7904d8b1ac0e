//! Byte-level text handling: splitting a line into words, joining words,
//! decimal numbers, and building output.
use vstd::prelude::*;
use vstd::string::*;

verus! {

/// The bytes `u8::is_ascii_whitespace` accepts: space, tab, line feed,
/// form feed and carriage return.
pub open spec fn is_space(b: u8) -> bool {
    b == 32 || b == 9 || b == 10 || b == 12 || b == 13
}

fn is_space_byte(b: u8) -> (r: bool)
    ensures
        r == is_space(b),
{
    b == 32 || b == 9 || b == 10 || b == 12 || b == 13
}

/// Scans `s` from the left: the words already closed, and the word still
/// being read.
pub open spec fn scan_words(s: Seq<u8>) -> (Seq<Seq<u8>>, Seq<u8>)
    decreases s.len(),
{
    if s.len() == 0 {
        (seq![], seq![])
    } else {
        let (done, cur) = scan_words(s.drop_last());
        let b = s.last();
        if is_space(b) {
            if cur.len() > 0 {
                (done.push(cur), seq![])
            } else {
                (done, cur)
            }
        } else {
            (done, cur.push(b))
        }
    }
}

/// The words of `s`: its maximal runs of non-space bytes, in order.
pub open spec fn words(s: Seq<u8>) -> Seq<Seq<u8>> {
    let (done, cur) = scan_words(s);
    if cur.len() > 0 {
        done.push(cur)
    } else {
        done
    }
}

/// A line made only of spaces has no words.
pub proof fn lemma_blank_has_no_words(s: Seq<u8>)
    requires
        forall|i: int| 0 <= i < s.len() ==> is_space(#[trigger] s[i]),
    ensures
        words(s).len() == 0,
    decreases s.len(),
{
    if s.len() > 0 {
        lemma_blank_has_no_words(s.drop_last());
    }
}

/// The contents of a list of byte vectors.
pub open spec fn views(v: Seq<Vec<u8>>) -> Seq<Seq<u8>> {
    v.map_values(|w: Vec<u8>| w@)
}

/// Splits `s` into its words.
pub fn split_words(s: &[u8]) -> (r: Vec<Vec<u8>>)
    ensures
        views(r@) == words(s@),
{
    let mut done: Vec<Vec<u8>> = Vec::new();
    let mut cur: Vec<u8> = Vec::new();
    let mut i: usize = 0;
    while i < s.len()
        invariant
            i <= s@.len(),
            scan_words(s@.take(i as int)) == (views(done@), cur@),
        decreases s@.len() - i,
    {
        let b = s[i];
        assert(s@.take(i + 1).drop_last() =~= s@.take(i as int));
        if is_space_byte(b) {
            if cur.len() > 0 {
                let ghost d = views(done@);
                let ghost c = cur@;
                done.push(cur);
                cur = Vec::new();
                assert(views(done@) =~= d.push(c));
            }
        } else {
            cur.push(b);
        }
        i += 1;
    }
    assert(s@.take(s@.len() as int) =~= s@);
    if cur.len() > 0 {
        let ghost d = views(done@);
        let ghost c = cur@;
        done.push(cur);
        assert(views(done@) =~= d.push(c));
    }
    done
}

/// Whether two byte strings are equal.
pub fn bytes_eq(a: &[u8], b: &[u8]) -> (r: bool)
    ensures
        r == (a@ == b@),
{
    if a.len() != b.len() {
        return false;
    }
    let mut i: usize = 0;
    while i < a.len()
        invariant
            i <= a@.len() == b@.len(),
            forall|j: int| 0 <= j < i ==> a@[j] == b@[j],
        decreases a@.len() - i,
    {
        if a[i] != b[i] {
            return false;
        }
        i += 1;
    }
    assert(a@ =~= b@);
    true
}

/// The words joined with one space between each two.
pub open spec fn join_words(ws: Seq<Seq<u8>>) -> Seq<u8>
    decreases ws.len(),
{
    if ws.len() == 0 {
        seq![]
    } else if ws.len() == 1 {
        ws[0]
    } else {
        join_words(ws.drop_last()) + seq![32u8] + ws.last()
    }
}

/// Appends `b` to `out`.
pub fn push_bytes(out: &mut Vec<u8>, b: &[u8])
    ensures
        final(out)@ == old(out)@ + b@,
{
    let ghost start = out@;
    let mut i: usize = 0;
    while i < b.len()
        invariant
            i <= b@.len(),
            out@ =~= start + b@.take(i as int),
        decreases b@.len() - i,
    {
        out.push(b[i]);
        i += 1;
    }
    assert(b@.take(b@.len() as int) =~= b@);
}

/// Appends the UTF-8 bytes of `s` to `out`.
pub fn push_str(out: &mut Vec<u8>, s: &str)
    ensures
        final(out)@ == old(out)@ + s.spec_bytes(),
{
    push_bytes(out, s.as_bytes());
}

/// Joins `ws[from..]` with single spaces.
pub fn join(ws: &Vec<Vec<u8>>, from: usize) -> (r: Vec<u8>)
    requires
        from <= ws@.len(),
    ensures
        r@ == join_words(views(ws@).skip(from as int)),
{
    let mut out: Vec<u8> = Vec::new();
    let mut i: usize = from;
    while i < ws.len()
        invariant
            from <= i <= ws@.len(),
            out@ == join_words(views(ws@).subrange(from as int, i as int)),
        decreases ws@.len() - i,
    {
        let ghost before = views(ws@).subrange(from as int, i as int);
        let ghost after = views(ws@).subrange(from as int, i + 1);
        assert(after.drop_last() =~= before);
        if i > from {
            out.push(32u8);
        }
        push_bytes(&mut out, ws[i].as_slice());
        assert(out@ =~= join_words(after));
        i += 1;
    }
    assert(views(ws@).subrange(from as int, ws@.len() as int) =~= views(ws@).skip(
        from as int,
    ));
    out
}

/// The decimal digits of `n`, most significant first, without leading zeros.
pub open spec fn decimal(n: nat) -> Seq<u8>
    decreases n,
{
    if n < 10 {
        seq![(48 + n) as u8]
    } else {
        decimal(n / 10).push((48 + n % 10) as u8)
    }
}

/// Appends the decimal digits of `n` to `out`.
pub fn push_decimal(out: &mut Vec<u8>, n: u64)
    ensures
        final(out)@ == old(out)@ + decimal(n as nat),
    decreases n,
{
    if n >= 10 {
        push_decimal(out, n / 10);
    }
    out.push(48u8 + (n % 10) as u8);
    assert(final(out)@ =~= old(out)@ + decimal(n as nat)) by {
        if n >= 10 {
            assert(decimal(n as nat) == decimal((n / 10) as nat).push((48 + n % 10) as u8));
        }
    }
}

/// The value of a run of decimal digits, or `None` where a byte is not a
/// digit or there is none.
pub open spec fn digits_value(s: Seq<u8>) -> Option<nat>
    decreases s.len(),
{
    if s.len() == 0 {
        None
    } else {
        let d = s.last();
        if !(48 <= d <= 57) {
            None
        } else if s.len() == 1 {
            Some((d - 48) as nat)
        } else {
            match digits_value(s.drop_last()) {
                Some(v) => Some(v * 10 + (d - 48) as nat),
                None => None,
            }
        }
    }
}

/// The number a word spells in decimal, with an optional leading `+`, as
/// `str::parse::<usize>` reads it (before its range check).
pub open spec fn number_value(s: Seq<u8>) -> Option<nat> {
    if s.len() > 0 && s[0] == 43 {
        digits_value(s.drop_first())
    } else {
        digits_value(s)
    }
}

/// Reads a slot index: `Some(v)` exactly when `s` spells a number `v` that
/// is below `bound`.
pub fn parse_index(s: &[u8], bound: usize) -> (r: Option<usize>)
    requires
        bound <= 1000,
    ensures
        r matches Some(v) <==> (number_value(s@) matches Some(n) && n < bound),
        r matches Some(v) ==> number_value(s@) == Some(v as nat),
{
    let start: usize = if s.len() > 0 && s[0] == 43u8 { 1 } else { 0 };
    let ghost body = s@.skip(start as int);
    assert(number_value(s@) == digits_value(body)) by {
        if start == 1 {
            assert(body =~= s@.drop_first());
        } else {
            assert(body =~= s@);
        }
    }
    if start >= s.len() {
        return None;
    }
    let mut v: usize = 0;
    let mut big: bool = false;
    let mut i: usize = start;
    while i < s.len()
        invariant
            start < s@.len(),
            start <= i <= s@.len(),
            body == s@.skip(start as int),
            number_value(s@) == digits_value(body),
            i == start ==> !big && v == 0,
            i > start ==> (digits_value(s@.subrange(start as int, i as int)) matches Some(n) && (
            big <==> n >= 1000) && (!big ==> n == v)),
            v < 1000,
        decreases s@.len() - i,
    {
        let d = s[i];
        let ghost pre = s@.subrange(start as int, i as int);
        let ghost next = s@.subrange(start as int, i + 1);
        assert(next.drop_last() =~= pre);
        assert(next.last() == d);
        if d < 48u8 || d > 57u8 {
            assert(digits_value(next) is None);
            assert(s@.subrange(start as int, s@.len() as int).take(i + 1 - start) =~= next);
            proof {
                lemma_digits_none_extends(s@.subrange(start as int, s@.len() as int), i + 1 - start);
            }
            assert(s@.subrange(start as int, s@.len() as int) =~= body);
            return None;
        }
        if i == start {
            assert(next.len() == 1);
            assert(digits_value(next) == Some((d - 48) as nat));
        } else {
            assert(digits_value(next) == Some(digits_value(pre)->0 * 10 + (d - 48) as nat));
        }
        if !big {
            let w: usize = v * 10 + (d - 48u8) as usize;
            if w >= 1000 {
                big = true;
            } else {
                v = w;
            }
        } else {
            assert(digits_value(next)->0 >= digits_value(pre)->0);
        }
        i += 1;
    }
    assert(s@.subrange(start as int, s@.len() as int) =~= body);
    if big || v >= bound {
        None
    } else {
        Some(v)
    }
}

/// Once a prefix holds a non-digit, no longer prefix has a value.
proof fn lemma_digits_none_extends(s: Seq<u8>, k: int)
    requires
        0 < k <= s.len(),
        digits_value(s.take(k)) is None,
    ensures
        digits_value(s) is None,
    decreases s.len() - k,
{
    if k < s.len() {
        assert(s.take(k + 1).drop_last() =~= s.take(k));
        lemma_digits_none_extends(s, k + 1);
    } else {
        assert(s.take(k) =~= s);
    }
}

/// Whether `b` is well-formed UTF-8, as `core::str::from_utf8` decides it.
pub uninterp spec fn utf8_valid(b: Seq<u8>) -> bool;

/// Relies on `core::str::from_utf8`: it succeeds exactly on well-formed
/// UTF-8, which depends on the bytes alone.
#[verifier::external_body]
pub(crate) fn is_utf8(b: &[u8]) -> (r: bool)
    ensures
        r == utf8_valid(b@),
{
    core::str::from_utf8(b).is_ok()
}

} // verus!
