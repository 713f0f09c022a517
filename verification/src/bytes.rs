use vstd::prelude::*;

verus! {

/// Strict lexicographic order on byte sequences: at the first differing
/// position the smaller byte wins, and a proper prefix precedes every one of
/// its extensions. This is the order in which the underlying store keeps its
/// keys, so it is the order that index-key encoding must preserve.
pub open spec fn lex_lt(a: Seq<u8>, b: Seq<u8>) -> bool
    decreases a.len(),
{
    if b.len() == 0 {
        false
    } else if a.len() == 0 {
        true
    } else if a[0] < b[0] {
        true
    } else if a[0] > b[0] {
        false
    } else {
        lex_lt(a.drop_first(), b.drop_first())
    }
}

/// Appending suffixes behind equally long prefixes keeps the lexicographic
/// order: the prefixes decide the comparison, and the suffixes decide it once
/// the prefixes agree.
pub proof fn lemma_lex_lt_append(a: Seq<u8>, b: Seq<u8>, s: Seq<u8>, t: Seq<u8>)
    requires
        a.len() == b.len(),
    ensures
        lex_lt(a + s, b + t) == (lex_lt(a, b) || (a == b && lex_lt(s, t))),
    decreases a.len(),
{
    if a.len() == 0 {
        assert(a + s =~= s);
        assert(b + t =~= t);
        assert(a =~= b);
    } else {
        let a1 = a.drop_first();
        let b1 = b.drop_first();
        assert((a + s).drop_first() =~= a1 + s);
        assert((b + t).drop_first() =~= b1 + t);
        lemma_lex_lt_append(a1, b1, s, t);
        if a[0] == b[0] && a1 == b1 {
            assert forall|i: int| 0 <= i < a.len() implies a[i] == b[i] by {
                if i > 0 {
                    assert(a[i] == a1[i - 1]);
                    assert(b[i] == b1[i - 1]);
                }
            }
            assert(a =~= b);
        }
    }
}

/// The n-th power of 256: the number of byte strings of length n.
pub open spec fn pow256(n: nat) -> nat
    decreases n,
{
    if n == 0 {
        1
    } else {
        256 * pow256((n - 1) as nat)
    }
}

/// Big-endian base-256 digits of x, n digits, most significant first.
pub open spec fn be_bytes(x: nat, n: nat) -> Seq<u8>
    decreases n,
{
    if n == 0 {
        Seq::empty()
    } else {
        be_bytes(x / 256, (n - 1) as nat).push((x % 256) as u8)
    }
}

/// The number a big-endian digit string stands for.
pub open spec fn be_val(s: Seq<u8>) -> nat
    decreases s.len(),
{
    if s.len() == 0 {
        0
    } else {
        be_val(s.drop_last()) * 256 + (s.last() as nat)
    }
}

pub proof fn lemma_pow256_pos(n: nat)
    ensures
        pow256(n) >= 1,
    decreases n,
{
    if n > 0 {
        lemma_pow256_pos((n - 1) as nat);
    }
}

pub proof fn lemma_pow256_mono(i: nat, j: nat)
    requires
        i <= j,
    ensures
        pow256(i) <= pow256(j),
    decreases j,
{
    if i < j && j > 0 {
        lemma_pow256_mono(i, (j - 1) as nat);
        lemma_pow256_pos((j - 1) as nat);
    }
}

pub proof fn lemma_pow256_64()
    ensures
        pow256(8) == 0x1_0000_0000_0000_0000,
{
    reveal_with_fuel(pow256, 10);
}

pub proof fn lemma_be_bytes_len(x: nat, n: nat)
    ensures
        be_bytes(x, n).len() == n,
    decreases n,
{
    if n > 0 {
        lemma_be_bytes_len(x / 256, (n - 1) as nat);
    }
}

/// An n-digit string names a number below 256^n.
pub proof fn lemma_be_val_bound(s: Seq<u8>)
    ensures
        be_val(s) < pow256(s.len()),
    decreases s.len(),
{
    if s.len() > 0 {
        lemma_be_val_bound(s.drop_last());
    }
}

/// Reading back the digits of x yields x.
pub proof fn lemma_be_bytes_val(x: nat, n: nat)
    requires
        x < pow256(n),
    ensures
        be_val(be_bytes(x, n)) == x,
    decreases n,
{
    if n > 0 {
        let m = (n - 1) as nat;
        let q = x / 256;
        let r = x % 256;
        assert(x == 256 * q + r) by {
            vstd::arithmetic::div_mod::lemma_fundamental_div_mod(x as int, 256);
        }
        assert(q < pow256(m)) by (nonlinear_arith)
            requires
                x < 256 * pow256(m),
                pow256(m) >= 1,
                q == x / 256,
        {
            lemma_pow256_pos(m);
        }
        lemma_pow256_pos(m);
        lemma_be_bytes_val(q, m);
        lemma_be_bytes_len(q, m);
        assert(be_bytes(x, n).drop_last() =~= be_bytes(q, m));
    }
}

/// Order preservation of the fixed-width big-endian encoding: smaller numbers
/// get lexicographically smaller digit strings.
pub proof fn lemma_be_bytes_order(x: nat, y: nat, n: nat)
    requires
        x < y,
        y < pow256(n),
    ensures
        lex_lt(be_bytes(x, n), be_bytes(y, n)),
    decreases n,
{
    lemma_pow256_pos(n);
    if n > 0 {
        let m = (n - 1) as nat;
        lemma_pow256_pos(m);
        let qx = x / 256;
        let rx = x % 256;
        let qy = y / 256;
        let ry = y % 256;
        assert(x == 256 * qx + rx) by {
            vstd::arithmetic::div_mod::lemma_fundamental_div_mod(x as int, 256);
        }
        assert(y == 256 * qy + ry) by {
            vstd::arithmetic::div_mod::lemma_fundamental_div_mod(y as int, 256);
        }
        assert(qy < pow256(m)) by (nonlinear_arith)
            requires
                y < 256 * pow256(m),
                pow256(m) >= 1,
                qy == y / 256,
        ;
        lemma_be_bytes_len(qx, m);
        lemma_be_bytes_len(qy, m);
        assert(be_bytes(x, n) =~= be_bytes(qx, m) + seq![(rx % 256) as u8]);
        assert(be_bytes(y, n) =~= be_bytes(qy, m) + seq![(ry % 256) as u8]);
        lemma_lex_lt_append(
            be_bytes(qx, m),
            be_bytes(qy, m),
            seq![(rx % 256) as u8],
            seq![(ry % 256) as u8],
        );
        if qx < qy {
            lemma_be_bytes_order(qx, qy, m);
        } else {
            assert(qx == qy);
            assert(rx < ry);
            assert(be_bytes(qx, m) == be_bytes(qy, m));
            assert(lex_lt(seq![(rx % 256) as u8], seq![(ry % 256) as u8]));
        }
    }
}

/// Writes x as eight big-endian bytes.
pub fn u64_to_be_bytes(x: u64) -> (r: Vec<u8>)
    ensures
        r@ == be_bytes(x as nat, 8),
        r@.len() == 8,
{
    let mut le: Vec<u8> = Vec::new();
    let mut tmp: u64 = x;
    let mut k: usize = 0;
    while k < 8
        invariant
            k <= 8,
            le@.len() == k,
            be_bytes(x as nat, 8) == be_bytes(tmp as nat, (8 - k) as nat) + le@.reverse(),
        decreases 8 - k,
    {
        let b: u8 = (tmp % 256) as u8;
        proof {
            let old_rev = le@.reverse();
            let new_le = le@.push(b);
            assert(new_le.reverse() =~= seq![b] + old_rev);
            assert(be_bytes(tmp as nat, (8 - k) as nat) =~= be_bytes(
                (tmp as nat) / 256,
                (8 - k - 1) as nat,
            ) + seq![b]);
            assert(be_bytes((tmp as nat) / 256, (8 - k - 1) as nat) + (seq![b] + old_rev) =~= (
            be_bytes((tmp as nat) / 256, (8 - k - 1) as nat) + seq![b]) + old_rev);
            assert((tmp / 256) as nat == (tmp as nat) / 256);
        }
        le.push(b);
        tmp = tmp / 256;
        k = k + 1;
    }
    proof {
        assert(be_bytes(x as nat, 8) =~= le@.reverse());
        lemma_be_bytes_len(x as nat, 8);
    }
    let mut out: Vec<u8> = Vec::new();
    let mut j: usize = 0;
    while j < 8
        invariant
            j <= 8,
            le@.len() == 8,
            out@.len() == j,
            be_bytes(x as nat, 8) == le@.reverse(),
            forall|i: int| 0 <= i < j ==> out@[i] == le@[7 - i],
        decreases 8 - j,
    {
        let b = le[7 - j];
        out.push(b);
        j = j + 1;
    }
    proof {
        assert(out@ =~= le@.reverse());
    }
    out
}

/// Writing back the number a digit string names yields the digit string:
/// the big-endian shape is unambiguous.
pub proof fn lemma_be_bytes_of_val(s: Seq<u8>)
    ensures
        be_bytes(be_val(s), s.len()) == s,
    decreases s.len(),
{
    if s.len() == 0 {
        assert(be_bytes(be_val(s), 0) =~= s);
    } else {
        let v = be_val(s);
        let hi = be_val(s.drop_last());
        let last = s.last();
        vstd::arithmetic::div_mod::lemma_fundamental_div_mod_converse(
            v as int,
            256,
            hi as int,
            last as int,
        );
        lemma_be_bytes_of_val(s.drop_last());
        assert(be_bytes(v, s.len()) =~= s.drop_last().push(last));
        assert(s.drop_last().push(last) =~= s);
    }
}

/// Copies the bytes of `src` between `start` and `end` into a fresh vector.
pub fn copy_bytes_range(src: &Vec<u8>, start: usize, end: usize) -> (r: Vec<u8>)
    requires
        start <= end,
        end <= src@.len(),
    ensures
        r@ == src@.subrange(start as int, end as int),
{
    let mut out: Vec<u8> = Vec::new();
    let mut i: usize = start;
    while i < end
        invariant
            start <= i <= end,
            end <= src@.len(),
            out@ == src@.subrange(start as int, i as int),
        decreases end - i,
    {
        out.push(src[i]);
        proof {
            assert(out@ =~= src@.subrange(start as int, i as int + 1));
        }
        i = i + 1;
    }
    out
}

/// Copies a whole byte vector.
pub fn copy_bytes(src: &Vec<u8>) -> (r: Vec<u8>)
    ensures
        r@ == src@,
{
    let r = copy_bytes_range(src, 0, src.len());
    proof {
        assert(src@.subrange(0, src@.len() as int) =~= src@);
    }
    r
}

/// Compares two byte vectors for equality of contents.
pub fn bytes_eq(a: &Vec<u8>, b: &Vec<u8>) -> (r: bool)
    ensures
        r == (a@ == b@),
{
    if a.len() != b.len() {
        return false;
    }
    let n = a.len();
    let mut i: usize = 0;
    while i < n
        invariant
            i <= n,
            n == a@.len(),
            n == b@.len(),
            forall|j: int| 0 <= j < i ==> a@[j] == b@[j],
        decreases n - i,
    {
        if a[i] != b[i] {
            return false;
        }
        i = i + 1;
    }
    proof {
        assert(a@ =~= b@);
    }
    true
}

/// Reads the eight big-endian bytes at `pos` back into a number.
pub fn read_u64_be(buf: &Vec<u8>, pos: usize) -> (r: u64)
    requires
        pos + 8 <= buf@.len(),
    ensures
        r as nat == be_val(buf@.subrange(pos as int, pos as int + 8)),
{
    let ghost s = buf@.subrange(pos as int, pos as int + 8);
    let mut acc: u64 = 0;
    let mut i: usize = 0;
    while i < 8
        invariant
            i <= 8,
            pos + 8 <= buf@.len(),
            s == buf@.subrange(pos as int, pos as int + 8),
            acc as nat == be_val(s.take(i as int)),
        decreases 8 - i,
    {
        proof {
            lemma_be_val_bound(s.take(i as int));
            lemma_pow256_mono(s.take(i as int).len(), 7);
            lemma_pow256_64();
            reveal_with_fuel(pow256, 10);
            assert(s.take(i as int + 1).drop_last() =~= s.take(i as int));
            assert(s.take(i as int + 1).last() == s[i as int]);
        }
        let blen = buf.len();
        let b = buf[pos + i];
        acc = acc * 256 + (b as u64);
        i = i + 1;
    }
    proof {
        assert(s.take(8) =~= s);
    }
    acc
}

} // verus!
