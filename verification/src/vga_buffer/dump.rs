//! Hexadecimal dumps of memory: sixteen bytes a line, with their address,
//! their values two by two and the characters they print as.

use vstd::prelude::*;

verus! {

/// The lower-case hexadecimal digit of `d` (below 16).
pub open spec fn hex_digit(d: nat) -> u8 {
    if d < 10 {
        (48 + d) as u8
    } else {
        (87 + d) as u8
    }
}

/// The hexadecimal digits of `n`, most significant first, without leading
/// zeros (one digit for 0).
pub open spec fn hex_digits(n: nat) -> Seq<u8>
    decreases n,
{
    if n < 16 {
        seq![hex_digit(n)]
    } else {
        hex_digits(n / 16).push(hex_digit(n % 16))
    }
}

/// `n` in hexadecimal on at least `w` digits, zeros in front.
pub open spec fn hex_padded(n: nat, w: nat) -> Seq<u8> {
    let d = hex_digits(n);
    if d.len() < w {
        Seq::new((w - d.len()) as nat, |i: int| 48u8) + d
    } else {
        d
    }
}

/// The values of the bytes of a line: two digits each, a space after
/// every second byte.
pub open spec fn hex_column(s: Seq<u8>) -> Seq<u8>
    decreases s.len(),
{
    if s.len() == 0 {
        Seq::empty()
    } else {
        hex_column(s.drop_last()) + hex_padded(s.last() as nat, 2) + if (s.len() - 1) % 2 == 1 {
            seq![32u8]
        } else {
            Seq::empty()
        }
    }
}

/// The blanks that stand for `k` missing bytes at the end of a line.
pub open spec fn blanks(k: nat) -> Seq<u8>
    decreases k,
{
    if k == 0 {
        Seq::empty()
    } else {
        blanks((k - 1) as nat) + (if (k - 1) % 2 == 0 {
            seq![32u8]
        } else {
            Seq::empty()
        }) + seq![32u8, 32u8]
    }
}

/// How byte `b` shows in the text column: itself when printable, else a
/// dot.
pub open spec fn shown(b: u8) -> u8 {
    if 0x20 <= b < 0x7f {
        b
    } else {
        46u8
    }
}

/// The line of the bytes `s` (at most 16) found at `addr`.
pub open spec fn dump_line(addr: nat, s: Seq<u8>) -> Seq<u8> {
    hex_padded(addr, 8) + seq![58u8, 32u8] + hex_column(s) + blanks((16 - s.len()) as nat) + s.map_values(
        |b: u8| shown(b),
    ) + seq![10u8]
}

/// The lines of the bytes of `s` from `i` on, `s` being found at `addr`.
pub open spec fn dump_from(addr: nat, s: Seq<u8>, i: nat) -> Seq<u8>
    decreases (if i <= s.len() { s.len() - i } else { 0 }),
{
    if i >= s.len() {
        Seq::empty()
    } else {
        let nb = if s.len() - i > 16 { 16 } else { s.len() - i };
        dump_line(addr + i, s.subrange(i as int, i + nb)) + dump_from(addr, s, i + 16)
    }
}

/// The text column of a dump line, the last `s.len()` bytes before its
/// newline, shows each byte of `s` in turn: a printable ASCII byte (0x20
/// to 0x7e) as itself, any other as a dot; so every byte of the column is
/// printable ASCII.
pub proof fn lemma_dump_text_column(addr: nat, s: Seq<u8>)
    ensures
        ({
            let t = dump_line(addr, s);
            let start = t.len() - 1 - s.len();
            &&& start >= 0
            &&& t[t.len() - 1] == 10u8
            &&& forall|k: int|
                0 <= k < s.len() ==> {
                    let c = #[trigger] t[start + k];
                    &&& 0x20 <= c <= 0x7e
                    &&& (0x20 <= s[k] <= 0x7e ==> c == s[k])
                    &&& (!(0x20 <= s[k] <= 0x7e) ==> c == 46u8)
                }
        }),
{
    let head = hex_padded(addr, 8) + seq![58u8, 32u8] + hex_column(s) + blanks((16 - s.len()) as nat);
    let text = s.map_values(|b: u8| shown(b));
    let t = dump_line(addr, s);
    assert(t == head + text + seq![10u8]);
    assert(t.len() == head.len() + s.len() + 1);
    assert forall|k: int| 0 <= k < s.len() implies #[trigger] t[head.len() + k] == shown(s[k]) by {
        assert(t[head.len() + k] == text[k]);
    }
}

/// The value of a hexadecimal digit, lower case.
pub open spec fn hex_digit_value(c: u8) -> int {
    if 48 <= c <= 57 {
        c - 48
    } else {
        c - 87
    }
}

/// `c` is a lower-case hexadecimal digit.
pub open spec fn is_hex_digit(c: u8) -> bool {
    (48 <= c <= 57) || (97 <= c <= 102)
}

/// The number that the hexadecimal digits `s` write, most significant
/// first.
pub open spec fn hex_value(s: Seq<u8>) -> int
    decreases s.len(),
{
    if s.len() == 0 {
        0
    } else {
        hex_value(s.drop_last()) * 16 + hex_digit_value(s.last())
    }
}

/// The digits of `n` are hexadecimal digits that write `n`: one digit
/// below 16, two below 256, at most eight below 2^32.
proof fn lemma_hex_digits_value(n: nat)
    ensures
        hex_value(hex_digits(n)) == n,
        forall|i: int| 0 <= i < hex_digits(n).len() ==> is_hex_digit(#[trigger] hex_digits(n)[i]),
        1 <= hex_digits(n).len(),
        n < 16 ==> hex_digits(n).len() == 1,
        n < 0x100 ==> hex_digits(n).len() <= 2,
        n < 0x1000 ==> hex_digits(n).len() <= 3,
        n < 0x1_0000 ==> hex_digits(n).len() <= 4,
        n < 0x10_0000 ==> hex_digits(n).len() <= 5,
        n < 0x100_0000 ==> hex_digits(n).len() <= 6,
        n < 0x1000_0000 ==> hex_digits(n).len() <= 7,
        n < 0x1_0000_0000 ==> hex_digits(n).len() <= 8,
    decreases n,
{
    if n >= 16 {
        lemma_hex_digits_value(n / 16);
        let d = hex_digits(n);
        assert(d.drop_last() =~= hex_digits(n / 16));
        assert(d.last() == hex_digit(n % 16));
        assert(hex_digit_value(hex_digit(n % 16)) == n % 16);
        assert(hex_value(d) == hex_value(d.drop_last()) * 16 + hex_digit_value(d.last()));
        assert(hex_value(d.drop_last()) == n / 16);
        vstd::arithmetic::div_mod::lemma_fundamental_div_mod(n as int, 16);
        assert forall|i: int| 0 <= i < d.len() implies is_hex_digit(#[trigger] d[i]) by {
            if i < d.len() - 1 {
                assert(d[i] == hex_digits(n / 16)[i]);
            }
        }
    } else {
        let d = hex_digits(n);
        assert(d =~= seq![hex_digit(n)]);
        assert(d.drop_last() =~= Seq::<u8>::empty());
        assert(hex_value(d.drop_last()) == 0);
        assert(hex_digit_value(hex_digit(n)) == n);
        assert(hex_value(d) == hex_value(d.drop_last()) * 16 + hex_digit_value(d.last()));
    }
}

/// Zeros in front do not change what digits write.
proof fn lemma_leading_zeros(k: nat, d: Seq<u8>)
    ensures
        hex_value(Seq::new(k, |i: int| 48u8) + d) == hex_value(d),
    decreases d.len(), k,
{
    let z = Seq::new(k, |i: int| 48u8);
    if d.len() == 0 {
        assert(z + d =~= z);
        if k > 0 {
            assert(z.drop_last() =~= Seq::new((k - 1) as nat, |i: int| 48u8));
            lemma_leading_zeros((k - 1) as nat, d);
            assert(Seq::new((k - 1) as nat, |i: int| 48u8) + d =~= Seq::new((k - 1) as nat, |i: int| 48u8));
        }
    } else {
        assert((z + d).drop_last() =~= z + d.drop_last());
        lemma_leading_zeros(k, d.drop_last());
    }
}

/// `hex_padded(n, w)` writes `n` in hexadecimal digits, `w` of them when
/// `n` needs no more.
proof fn lemma_hex_padded_value(n: nat, w: nat)
    ensures
        hex_value(hex_padded(n, w)) == n,
        forall|i: int| 0 <= i < hex_padded(n, w).len() ==> is_hex_digit(#[trigger] hex_padded(n, w)[i]),
        hex_digits(n).len() <= w ==> hex_padded(n, w).len() == w,
{
    lemma_hex_digits_value(n);
    let d = hex_digits(n);
    if d.len() < w {
        let z = Seq::new((w - d.len()) as nat, |i: int| 48u8);
        lemma_leading_zeros((w - d.len()) as nat, d);
        assert forall|i: int| 0 <= i < (z + d).len() implies is_hex_digit(#[trigger] (z + d)[i]) by {
            if i >= z.len() {
                assert((z + d)[i] == d[i - z.len()]);
            }
        }
    }
}

/// Byte `k` of a line is written at `2 * k + k / 2` of the hex column, on
/// two digits.
proof fn lemma_hex_column_at(s: Seq<u8>, k: int)
    requires
        0 <= k < s.len(),
    ensures
        hex_column(s).len() == 2 * s.len() + s.len() / 2,
        hex_column(s).subrange(2 * k + k / 2, 2 * k + k / 2 + 2) == hex_padded(s[k] as nat, 2),
    decreases s.len(),
{
    let t = s.drop_last();
    let last = s.last();
    lemma_hex_digits_value(last as nat);
    lemma_hex_padded_value(last as nat, 2);
    if t.len() > 0 {
        if k < t.len() {
            lemma_hex_column_at(t, k);
            assert(t[k] == s[k]);
        } else {
            lemma_hex_column_at(t, 0);
        }
    }
    let c = hex_column(s);
    let ct = hex_column(t);
    assert(ct.len() == 2 * t.len() + t.len() / 2);
    if k < t.len() {
        assert(c.subrange(2 * k + k / 2, 2 * k + k / 2 + 2) =~= ct.subrange(2 * k + k / 2, 2 * k + k / 2 + 2));
    } else {
        assert(c.subrange(2 * k + k / 2, 2 * k + k / 2 + 2) =~= hex_padded(last as nat, 2));
    }
}

/// Bytes `p` and `p + 1` of `t` are the two hexadecimal digits of `b`.
pub open spec fn hex_byte_at(t: Seq<u8>, p: int, b: u8) -> bool {
    &&& is_hex_digit(t[p])
    &&& is_hex_digit(t[p + 1])
    &&& hex_value(t.subrange(p, p + 2)) == b
}

/// A dump line of up to sixteen bytes at an address below 2^32 starts with
/// the address on eight hexadecimal digits, a colon and a blank; then byte
/// `k` is written on two hexadecimal digits at `10 + 2 * k + k / 2` (a
/// blank after every second byte).
pub proof fn lemma_dump_hex_fields(addr: nat, s: Seq<u8>)
    requires
        addr < 0x1_0000_0000,
        s.len() <= 16,
    ensures
        ({
            let t = dump_line(addr, s);
            &&& hex_value(t.subrange(0, 8)) == addr
            &&& forall|i: int| 0 <= i < 8 ==> is_hex_digit(#[trigger] t[i])
            &&& t[8] == 58u8 && t[9] == 32u8
            &&& forall|k: int| 0 <= k < s.len() ==> #[trigger] hex_byte_at(t, 10 + 2 * k + k / 2, s[k])
        }),
{
    lemma_hex_digits_value(addr);
    lemma_hex_padded_value(addr, 8);
    let a = hex_padded(addr, 8);
    let t = dump_line(addr, s);
    let rest = hex_column(s) + blanks((16 - s.len()) as nat) + s.map_values(|b: u8| shown(b)) + seq![10u8];
    assert(t =~= a + seq![58u8, 32u8] + rest);
    assert(a.len() == 8);
    assert(t.subrange(0, 8) =~= a);
    assert(hex_value(t.subrange(0, 8)) == addr);
    assert(t[8] == 58u8);
    assert(t[9] == 32u8);
    assert forall|i: int| 0 <= i < 8 implies is_hex_digit(#[trigger] t[i]) by {
        assert(t[i] == a[i]);
    }
    assert forall|k: int| 0 <= k < s.len() implies #[trigger] hex_byte_at(t, 10 + 2 * k + k / 2, s[k]) by {
        let p = 10 + 2 * k + k / 2;
        lemma_hex_column_at(s, k);
        lemma_hex_padded_value(s[k] as nat, 2);
        lemma_hex_digits_value(s[k] as nat);
        let h = hex_padded(s[k] as nat, 2);
        let col = hex_column(s);
        assert(t.subrange(p, p + 2) =~= col.subrange(p - 10, p - 8));
        assert(t[p] == h[0]);
        assert(t[p + 1] == h[1]);
    }
}

fn digit(d: usize) -> (res: u8)
    requires
        d < 16,
    ensures
        res == hex_digit(d as nat),
{
    if d < 10 {
        (48 + d) as u8
    } else {
        (87 + d) as u8
    }
}

/// Adds the hexadecimal digits of `n`.
fn push_digits(out: &mut Vec<u8>, n: usize)
    ensures
        final(out)@ == old(out)@ + hex_digits(n as nat),
    decreases n,
{
    if n >= 16 {
        push_digits(out, n / 16);
    }
    out.push(digit(n % 16));
    proof {
        if n >= 16 {
            assert(hex_digits(n as nat) == hex_digits((n / 16) as nat).push(hex_digit((n % 16) as nat)));
        }
        assert(final(out)@ =~= old(out)@ + hex_digits(n as nat));
    }
}

/// The number of hexadecimal digits of `n`.
fn digit_count(n: usize) -> (res: usize)
    ensures
        res == hex_digits(n as nat).len(),
    decreases n,
{
    if n >= 16 {
        let c = digit_count(n / 16);
        proof {
            lemma_digits_few((n / 16) as nat);
        }
        c + 1
    } else {
        1
    }
}

proof fn lemma_digits_few(n: nat)
    ensures
        hex_digits(n).len() <= n + 1,
    decreases n,
{
    if n >= 16 {
        lemma_digits_few(n / 16);
    }
}

/// Adds `n` in hexadecimal on at least `w` digits.
fn push_hex(out: &mut Vec<u8>, n: usize, w: usize)
    ensures
        final(out)@ == old(out)@ + hex_padded(n as nat, w as nat),
{
    let len = digit_count(n);
    let ghost start = out@;
    let mut z: usize = 0;
    while len + z < w
        invariant
            len == hex_digits(n as nat).len(),
            out@ == start + Seq::new(z as nat, |i: int| 48u8),
            len + z <= w || z == 0,
        decreases w - z,
    {
        out.push(48u8);
        proof {
            assert(out@ =~= start + Seq::new((z + 1) as nat, |i: int| 48u8));
        }
        z += 1;
    }
    push_digits(out, n);
    proof {
        if len >= w {
            assert(z == 0);
            assert(Seq::new(0, |i: int| 48u8) =~= Seq::<u8>::empty());
        }
        assert(out@ =~= start + hex_padded(n as nat, w as nat));
    }
}

/// Adds the line of the `nb` bytes of `bytes` from `i` on, found at `at`.
fn push_line(out: &mut Vec<u8>, at: usize, bytes: &[u8], i: usize, nb: usize)
    requires
        nb <= 16,
        i + nb <= bytes@.len(),
    ensures
        final(out)@ == old(out)@ + dump_line(at as nat, bytes@.subrange(i as int, (i + nb) as int)),
{
    let ghost line = bytes@.subrange(i as int, (i + nb) as int);
    let len = bytes.len();
    push_hex(out, at, 8);
    out.push(58u8);
    out.push(32u8);
    let ghost at_hex = out@;
    let mut j: usize = 0;
    proof {
        assert(line.subrange(0, 0) =~= Seq::<u8>::empty());
    }
    while j < nb
        invariant
            j <= nb <= 16,
            i + nb <= bytes@.len(),
            len == bytes@.len(),
            line == bytes@.subrange(i as int, (i + nb) as int),
            out@ == at_hex + hex_column(line.subrange(0, j as int)),
        decreases nb - j,
    {
        push_hex(out, bytes[i + j] as usize, 2);
        if j % 2 == 1 {
            out.push(32u8);
        }
        proof {
            let t = line.subrange(0, j + 1);
            assert(t.drop_last() =~= line.subrange(0, j as int));
            assert(t.last() == bytes@[i + j]);
            assert(out@ =~= at_hex + hex_column(line.subrange(0, j + 1)));
        }
        j += 1;
    }
    let ghost at_blanks = out@;
    let mut k: usize = 0;
    while k < 16 - nb
        invariant
            nb <= 16,
            k <= 16 - nb,
            out@ == at_blanks + blanks(k as nat),
        decreases 16 - nb - k,
    {
        if k % 2 == 0 {
            out.push(32u8);
        }
        out.push(32u8);
        out.push(32u8);
        proof {
            assert(out@ =~= at_blanks + blanks((k + 1) as nat));
        }
        k += 1;
    }
    let ghost at_text = out@;
    let mut t: usize = 0;
    while t < nb
        invariant
            t <= nb <= 16,
            i + nb <= bytes@.len(),
            len == bytes@.len(),
            line == bytes@.subrange(i as int, (i + nb) as int),
            out@ == at_text + line.subrange(0, t as int).map_values(|b: u8| shown(b)),
        decreases nb - t,
    {
        let b = bytes[i + t];
        if b >= 0x20 && b < 0x7f {
            out.push(b);
        } else {
            out.push(46u8);
        }
        proof {
            assert(out@ =~= at_text + line.subrange(0, t + 1).map_values(|b: u8| shown(b)));
        }
        t += 1;
    }
    out.push(10u8);
    proof {
        assert(line.subrange(0, nb as int) =~= line);
        assert(out@ =~= old(out)@ + dump_line(at as nat, line));
    }
}

/// The dump of `bytes`, found at address `addr`: for each sixteen bytes a
/// line with their address on eight digits or more, a colon, their
/// values in hexadecimal two by two (blanks standing for the bytes a
/// short last line lacks), the characters they print as (a dot for
/// those that do not print), and a newline.
pub fn hexdump(addr: usize, bytes: &[u8]) -> (res: Vec<u8>)
    requires
        addr + bytes@.len() <= usize::MAX,
    ensures
        res@ == dump_from(addr as nat, bytes@, 0),
{
    let size = bytes.len();
    let mut res: Vec<u8> = Vec::new();
    let mut i: usize = 0;
    while i < size
        invariant_except_break
            size == bytes@.len(),
            addr + size <= usize::MAX,
            i <= size,
            res@ + dump_from(addr as nat, bytes@, i as nat) == dump_from(addr as nat, bytes@, 0),
        ensures
            res@ == dump_from(addr as nat, bytes@, 0),
        decreases size - i,
    {
        let ghost before = res@;
        let nb: usize = if size - i > 16 { 16 } else { size - i };
        push_line(&mut res, addr + i, bytes, i, nb);
        let ghost line = dump_line((addr + i) as nat, bytes@.subrange(i as int, (i + nb) as int));
        assert(dump_from(addr as nat, bytes@, i as nat) == line + dump_from(addr as nat, bytes@, (i + 16) as nat));
        if size - i <= 16 {
            assert(dump_from(addr as nat, bytes@, (i + 16) as nat) =~= Seq::<u8>::empty());
            assert(res@ =~= dump_from(addr as nat, bytes@, 0));
            break;
        }
        i += 16;
        assert(res@ + dump_from(addr as nat, bytes@, i as nat) =~= dump_from(addr as nat, bytes@, 0));
    }
    if size == 0 {
        assert(res@ =~= dump_from(addr as nat, bytes@, 0));
    }
    res
}

} // verus!
