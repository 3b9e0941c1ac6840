//! Where the arguments of a function started in a new process go on its
//! stack, and the stack pointer it starts with.

use vstd::prelude::*;

verus! {

/// An argument of `s` bytes can be placed: it is placed by words, or as
/// one half-word when it has two bytes.
pub open spec fn arg_size_ok(s: usize) -> bool {
    s == 0 || s == 2 || s % 4 == 0
}

/// The widths of the writes that place the first `d` bytes of an argument
/// of `s` bytes.
pub open spec fn arg_widths_upto(s: usize, d: int) -> Seq<u32> {
    if s == 2 {
        if d >= 2 {
            seq![2u32]
        } else {
            Seq::empty()
        }
    } else {
        Seq::new((d / 4) as nat, |i: int| 4u32)
    }
}

/// The widths of the writes that place an argument of `s` bytes.
pub open spec fn arg_widths(s: usize) -> Seq<u32> {
    arg_widths_upto(s, s as int)
}

/// The widths of the writes that place the arguments of sizes `sizes`, one
/// argument after the other.
pub open spec fn widths_of(sizes: Seq<usize>) -> Seq<u32>
    decreases sizes.len(),
{
    if sizes.len() == 0 {
        Seq::empty()
    } else {
        widths_of(sizes.drop_last()) + arg_widths(sizes.last())
    }
}

/// The sum of `sizes`.
pub open spec fn sizes_total(sizes: Seq<usize>) -> int
    decreases sizes.len(),
{
    if sizes.len() == 0 {
        0
    } else {
        sizes_total(sizes.drop_last()) + sizes.last()
    }
}

/// The sum of `widths`.
pub open spec fn widths_total(widths: Seq<u32>) -> int
    decreases widths.len(),
{
    if widths.len() == 0 {
        0
    } else {
        widths_total(widths.drop_last()) + widths.last()
    }
}

/// Where the arguments of sizes `sizes` start below a stack whose top is
/// `top`: their bytes and one more word are left free under the top.
pub open spec fn args_base(top: int, sizes: Seq<usize>) -> int {
    top - (sizes_total(sizes) + 4)
}

/// The stack pointer a function started with arguments of sizes `sizes`
/// on a stack whose top is `top` begins with: below the arguments, the
/// address of the function and one more word.
pub open spec fn args_esp(top: int, sizes: Seq<usize>) -> int {
    args_base(top, sizes) - 8
}

/// Where the arguments, and the function to call, go on a new stack.
pub struct ArgsLayout {
    /// The stack pointer the task starts with.
    pub esp: u32,
    /// Where the address of the function goes.
    pub func_at: u32,
    /// Each write that places the arguments: its address and its width in
    /// bytes, in the order the arguments come.
    pub writes: Vec<(u32, u32)>,
}

/// A prefix of `sizes` sums to no more than `sizes`.
proof fn lemma_sizes_prefix(sizes: Seq<usize>, k: int)
    requires
        0 <= k <= sizes.len(),
    ensures
        0 <= sizes_total(sizes.take(k)) <= sizes_total(sizes),
    decreases sizes.len() - k,
{
    if k < sizes.len() {
        lemma_sizes_prefix(sizes, k + 1);
        assert(sizes.take(k + 1).drop_last() =~= sizes.take(k));
        lemma_sizes_nonneg(sizes.take(k));
    } else {
        assert(sizes.take(k) =~= sizes);
        lemma_sizes_nonneg(sizes);
    }
}

proof fn lemma_sizes_nonneg(sizes: Seq<usize>)
    ensures
        sizes_total(sizes) >= 0,
    decreases sizes.len(),
{
    if sizes.len() > 0 {
        lemma_sizes_nonneg(sizes.drop_last());
    }
}

/// Where the arguments of sizes `sizes` go on a stack whose top is `top`:
/// from `args_base` up, one write per word of an argument (one half-word
/// write for an argument of two bytes), each at the end of the ones
/// before; the function's address goes a word below them, and the stack
/// pointer a word below that.
pub fn args_layout(top: u32, sizes: &Vec<usize>) -> (res: ArgsLayout)
    requires
        forall|i: int| 0 <= i < sizes@.len() ==> arg_size_ok(#[trigger] sizes@[i]),
        sizes_total(sizes@) + 12 <= top,
    ensures
        res.esp == args_esp(top as int, sizes@),
        res.func_at == args_base(top as int, sizes@) - 4,
        res.writes@.len() == widths_of(sizes@).len(),
        forall|j: int|
            0 <= j < res.writes@.len() ==> #[trigger] res.writes@[j] == (
            (args_base(top as int, sizes@) + widths_total(widths_of(sizes@).take(j))) as u32,
            widths_of(sizes@)[j],
        ),
{
    let ghost all = sizes@;
    let mut sum: usize = 0;
    let mut k: usize = 0;
    while k < sizes.len()
        invariant
            all == sizes@,
            k <= all.len(),
            sum == sizes_total(all.take(k as int)),
            sizes_total(all) + 12 <= top,
        decreases all.len() - k,
    {
        proof {
            lemma_sizes_prefix(all, k + 1);
            assert(all.take(k + 1).drop_last() =~= all.take(k as int));
        }
        sum = sum + sizes[k];
        k += 1;
    }
    proof {
        assert(all.take(all.len() as int) =~= all);
    }
    let base: u32 = top - (sum + 4) as u32;
    let mut writes: Vec<(u32, u32)> = Vec::new();
    let mut nb: u32 = 0;
    let ghost mut ws: Seq<u32> = Seq::empty();
    let mut k: usize = 0;
    while k < sizes.len()
        invariant
            all == sizes@,
            forall|i: int| 0 <= i < all.len() ==> arg_size_ok(#[trigger] all[i]),
            k <= all.len(),
            base == args_base(top as int, all),
            sizes_total(all) + 12 <= top,
            ws == widths_of(all.take(k as int)),
            nb == sizes_total(all.take(k as int)),
            nb == widths_total(ws),
            writes@.len() == ws.len(),
            forall|j: int| 0 <= j < ws.len() ==> #[trigger] writes@[j] == ((base + widths_total(ws.take(j))) as u32, ws[j]),
        decreases all.len() - k,
    {
        let s = sizes[k];
        proof {
            lemma_sizes_prefix(all, k + 1);
            assert(all.take(k + 1).drop_last() =~= all.take(k as int));
            assert(all.take(k + 1).last() == s);
            assert(arg_size_ok(all[k as int]));
        }
        let ghost before = ws;
        let mut n: usize = s;
        while n > 0
            invariant
                all == sizes@,
                k < all.len(),
                s == all[k as int],
                arg_size_ok(s),
                n <= s,
                s != 2 ==> n % 4 == 0,
                s == 2 ==> n == 0 || n == 2,
                base == args_base(top as int, all),
                sizes_total(all.take(k as int)) + s <= sizes_total(all),
                sizes_total(all) + 12 <= top,
                before == widths_of(all.take(k as int)),
                ws == before + arg_widths_upto(s, s - n),
                nb == sizes_total(all.take(k as int)) + (s - n),
                nb == widths_total(ws),
                writes@.len() == ws.len(),
                forall|j: int| 0 <= j < ws.len() ==> #[trigger] writes@[j] == ((base + widths_total(ws.take(j))) as u32, ws[j]),
            decreases n,
        {
            let w: u32 = if s / 4 > 0 {
                4
            } else {
                2
            };
            proof {
                let d = s - n;
                if s == 2 {
                    assert(arg_widths_upto(s, d + 2) =~= arg_widths_upto(s, d).push(2u32));
                } else {
                    assert(arg_widths_upto(s, d + 4) =~= arg_widths_upto(s, d).push(4u32));
                }
                assert((before + arg_widths_upto(s, d)).push(w) =~= before + arg_widths_upto(s, d).push(w));
            }
            writes.push((base + nb, w));
            proof {
                let nws = ws.push(w);
                assert(nws.drop_last() =~= ws);
                assert(nws.take(ws.len() as int) =~= ws);
                assert forall|j: int| 0 <= j < nws.len() implies #[trigger] writes@[j] == ((base + widths_total(nws.take(j))) as u32, nws[j]) by {
                    if j < ws.len() {
                        assert(nws.take(j) =~= ws.take(j));
                    }
                }
                ws = nws;
            }
            nb = nb + w;
            n = n - w as usize;
        }
        proof {
            assert(all.take(k + 1).drop_last() =~= all.take(k as int));
        }
        k += 1;
    }
    proof {
        assert(all.take(all.len() as int) =~= all);
    }
    let func_at = base - 4;
    ArgsLayout { esp: func_at - 4, func_at, writes }
}

} // verus!
