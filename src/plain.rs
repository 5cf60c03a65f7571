//! Fixed-width plain-data element types and their byte view.
use vstd::arithmetic::div_mod::{
    lemma_div_pos_is_pos, lemma_fundamental_div_mod, lemma_fundamental_div_mod_converse,
    lemma_mod_pos_bound,
};
use vstd::bytes::*;
use vstd::prelude::*;
use vstd::slice::slice_subrange;

verus! {

/// A fixed-width element type in which every byte pattern of the right width is
/// a valid value. Each value is viewed as its little-endian bytes.
pub trait Plain: Sized + Copy {
    /// The width of one element, in bytes.
    spec fn width() -> nat;

    /// The bytes of one element.
    spec fn spec_to_bytes(self) -> Seq<u8>;

    /// The element whose bytes are `b` (for `b` of the element's width).
    spec fn spec_from_bytes(b: Seq<u8>) -> Self;

    /// The byte view is a bijection between elements and byte strings of the width.
    proof fn lemma_bytes_bijective(x: Self, b: Seq<u8>)
        ensures
            1 <= Self::width() <= 16,
            x.spec_to_bytes().len() == Self::width(),
            Self::spec_from_bytes(x.spec_to_bytes()) == x,
            b.len() == Self::width() ==> Self::spec_from_bytes(b).spec_to_bytes() == b,
    ;

    fn width_exec() -> (r: usize)
        ensures
            r as nat == Self::width(),
    ;

    fn to_bytes(self) -> (r: Vec<u8>)
        ensures
            r@ == self.spec_to_bytes(),
    ;

    fn from_bytes(b: &[u8]) -> (r: Self)
        requires
            b@.len() == Self::width(),
        ensures
            r == Self::spec_from_bytes(b@),
    ;
}

impl Plain for u8 {
    open spec fn width() -> nat {
        1
    }

    open spec fn spec_to_bytes(self) -> Seq<u8> {
        seq![self]
    }

    open spec fn spec_from_bytes(b: Seq<u8>) -> u8 {
        b[0]
    }

    proof fn lemma_bytes_bijective(x: u8, b: Seq<u8>) {
        if b.len() == 1 {
            assert(seq![b[0]] =~= b);
        }
    }

    fn width_exec() -> (r: usize) {
        1
    }

    fn to_bytes(self) -> (r: Vec<u8>) {
        vec![self]
    }

    fn from_bytes(b: &[u8]) -> (r: u8) {
        b[0]
    }
}

impl Plain for u16 {
    open spec fn width() -> nat {
        2
    }

    open spec fn spec_to_bytes(self) -> Seq<u8> {
        spec_u16_to_le_bytes(self)
    }

    open spec fn spec_from_bytes(b: Seq<u8>) -> u16 {
        spec_u16_from_le_bytes(b)
    }

    proof fn lemma_bytes_bijective(x: u16, b: Seq<u8>) {
        lemma_auto_spec_u16_to_from_le_bytes();
    }

    fn width_exec() -> (r: usize) {
        2
    }

    fn to_bytes(self) -> (r: Vec<u8>) {
        u16_to_le_bytes(self)
    }

    fn from_bytes(b: &[u8]) -> (r: u16) {
        u16_from_le_bytes(b)
    }
}

impl Plain for u32 {
    open spec fn width() -> nat {
        4
    }

    open spec fn spec_to_bytes(self) -> Seq<u8> {
        spec_u32_to_le_bytes(self)
    }

    open spec fn spec_from_bytes(b: Seq<u8>) -> u32 {
        spec_u32_from_le_bytes(b)
    }

    proof fn lemma_bytes_bijective(x: u32, b: Seq<u8>) {
        lemma_auto_spec_u32_to_from_le_bytes();
    }

    fn width_exec() -> (r: usize) {
        4
    }

    fn to_bytes(self) -> (r: Vec<u8>) {
        u32_to_le_bytes(self)
    }

    fn from_bytes(b: &[u8]) -> (r: u32) {
        u32_from_le_bytes(b)
    }
}

impl Plain for u64 {
    open spec fn width() -> nat {
        8
    }

    open spec fn spec_to_bytes(self) -> Seq<u8> {
        spec_u64_to_le_bytes(self)
    }

    open spec fn spec_from_bytes(b: Seq<u8>) -> u64 {
        spec_u64_from_le_bytes(b)
    }

    proof fn lemma_bytes_bijective(x: u64, b: Seq<u8>) {
        lemma_auto_spec_u64_to_from_le_bytes();
    }

    fn width_exec() -> (r: usize) {
        8
    }

    fn to_bytes(self) -> (r: Vec<u8>) {
        u64_to_le_bytes(self)
    }

    fn from_bytes(b: &[u8]) -> (r: u64) {
        u64_from_le_bytes(b)
    }
}

impl Plain for i64 {
    open spec fn width() -> nat {
        8
    }

    open spec fn spec_to_bytes(self) -> Seq<u8> {
        spec_u64_to_le_bytes(self as u64)
    }

    open spec fn spec_from_bytes(b: Seq<u8>) -> i64 {
        spec_u64_from_le_bytes(b) as i64
    }

    proof fn lemma_bytes_bijective(x: i64, b: Seq<u8>) {
        lemma_auto_spec_u64_to_from_le_bytes();
        let u = spec_u64_from_le_bytes(b);
        assert((x as u64) as i64 == x) by (bit_vector);
        assert((u as i64) as u64 == u) by (bit_vector);
    }

    fn width_exec() -> (r: usize) {
        8
    }

    fn to_bytes(self) -> (r: Vec<u8>) {
        u64_to_le_bytes(self as u64)
    }

    fn from_bytes(b: &[u8]) -> (r: i64) {
        u64_from_le_bytes(b) as i64
    }
}

impl Plain for i16 {
    open spec fn width() -> nat {
        2
    }

    open spec fn spec_to_bytes(self) -> Seq<u8> {
        spec_u16_to_le_bytes(self as u16)
    }

    open spec fn spec_from_bytes(b: Seq<u8>) -> i16 {
        spec_u16_from_le_bytes(b) as i16
    }

    proof fn lemma_bytes_bijective(x: i16, b: Seq<u8>) {
        lemma_auto_spec_u16_to_from_le_bytes();
        let u = spec_u16_from_le_bytes(b);
        let y = x as u16;
        assert(spec_u16_to_le_bytes(y).len() == 2);
        assert(spec_u16_from_le_bytes(spec_u16_to_le_bytes(y)) == y);
        assert(y as i16 == x) by (bit_vector)
            requires
                y == x as u16,
        ;
        assert((u as i16) as u16 == u) by (bit_vector);
    }

    fn width_exec() -> (r: usize) {
        2
    }

    fn to_bytes(self) -> (r: Vec<u8>) {
        u16_to_le_bytes(self as u16)
    }

    fn from_bytes(b: &[u8]) -> (r: i16) {
        u16_from_le_bytes(b) as i16
    }
}

impl Plain for i32 {
    open spec fn width() -> nat {
        4
    }

    open spec fn spec_to_bytes(self) -> Seq<u8> {
        spec_u32_to_le_bytes(self as u32)
    }

    open spec fn spec_from_bytes(b: Seq<u8>) -> i32 {
        spec_u32_from_le_bytes(b) as i32
    }

    proof fn lemma_bytes_bijective(x: i32, b: Seq<u8>) {
        lemma_auto_spec_u32_to_from_le_bytes();
        let u = spec_u32_from_le_bytes(b);
        let y = x as u32;
        assert(spec_u32_to_le_bytes(y).len() == 4);
        assert(spec_u32_from_le_bytes(spec_u32_to_le_bytes(y)) == y);
        assert(y as i32 == x) by (bit_vector)
            requires
                y == x as u32,
        ;
        assert((u as i32) as u32 == u) by (bit_vector);
    }

    fn width_exec() -> (r: usize) {
        4
    }

    fn to_bytes(self) -> (r: Vec<u8>) {
        u32_to_le_bytes(self as u32)
    }

    fn from_bytes(b: &[u8]) -> (r: i32) {
        u32_from_le_bytes(b) as i32
    }
}

impl Plain for i8 {
    open spec fn width() -> nat {
        1
    }

    open spec fn spec_to_bytes(self) -> Seq<u8> {
        seq![self as u8]
    }

    open spec fn spec_from_bytes(b: Seq<u8>) -> i8 {
        b[0] as i8
    }

    proof fn lemma_bytes_bijective(x: i8, b: Seq<u8>) {
        if b.len() == 1 {
            let u = b[0];
            assert((u as i8) as u8 == u) by (bit_vector);
            assert(seq![b[0]] =~= b);
        }
        assert((x as u8) as i8 == x) by (bit_vector);
    }

    fn width_exec() -> (r: usize) {
        1
    }

    fn to_bytes(self) -> (r: Vec<u8>) {
        vec![self as u8]
    }

    fn from_bytes(b: &[u8]) -> (r: i8) {
        b[0] as i8
    }
}

impl Plain for u128 {
    open spec fn width() -> nat {
        16
    }

    open spec fn spec_to_bytes(self) -> Seq<u8> {
        spec_u128_to_le_bytes(self)
    }

    open spec fn spec_from_bytes(b: Seq<u8>) -> u128 {
        spec_u128_from_le_bytes(b)
    }

    proof fn lemma_bytes_bijective(x: u128, b: Seq<u8>) {
        lemma_auto_spec_u128_to_from_le_bytes();
    }

    fn width_exec() -> (r: usize) {
        16
    }

    fn to_bytes(self) -> (r: Vec<u8>) {
        u128_to_le_bytes(self)
    }

    fn from_bytes(b: &[u8]) -> (r: u128) {
        u128_from_le_bytes(b)
    }
}

impl Plain for i128 {
    open spec fn width() -> nat {
        16
    }

    open spec fn spec_to_bytes(self) -> Seq<u8> {
        spec_u128_to_le_bytes(self as u128)
    }

    open spec fn spec_from_bytes(b: Seq<u8>) -> i128 {
        spec_u128_from_le_bytes(b) as i128
    }

    proof fn lemma_bytes_bijective(x: i128, b: Seq<u8>) {
        lemma_auto_spec_u128_to_from_le_bytes();
        let u = spec_u128_from_le_bytes(b);
        let y = x as u128;
        assert(spec_u128_to_le_bytes(y).len() == 16);
        assert(spec_u128_from_le_bytes(spec_u128_to_le_bytes(y)) == y);
        assert(y as i128 == x) by (bit_vector)
            requires
                y == x as u128,
        ;
        assert((u as i128) as u128 == u) by (bit_vector);
    }

    fn width_exec() -> (r: usize) {
        16
    }

    fn to_bytes(self) -> (r: Vec<u8>) {
        u128_to_le_bytes(self as u128)
    }

    fn from_bytes(b: &[u8]) -> (r: i128) {
        u128_from_le_bytes(b) as i128
    }
}

/// Whether `usize` is 64 bits wide (otherwise it is 32 bits wide).
pub open spec fn usize_is_wide() -> bool {
    usize::MAX as int == u64::MAX as int
}

impl Plain for usize {
    open spec fn width() -> nat {
        if usize_is_wide() {
            8
        } else {
            4
        }
    }

    open spec fn spec_to_bytes(self) -> Seq<u8> {
        if usize_is_wide() {
            spec_u64_to_le_bytes(self as u64)
        } else {
            spec_u32_to_le_bytes(self as u32)
        }
    }

    open spec fn spec_from_bytes(b: Seq<u8>) -> usize {
        if usize_is_wide() {
            spec_u64_from_le_bytes(b) as usize
        } else {
            spec_u32_from_le_bytes(b) as usize
        }
    }

    proof fn lemma_bytes_bijective(x: usize, b: Seq<u8>) {
        lemma_auto_spec_u64_to_from_le_bytes();
        lemma_auto_spec_u32_to_from_le_bytes();
        assert(usize::MAX as int == u64::MAX as int || usize::MAX as int == u32::MAX as int);
        if usize_is_wide() {
            assert(spec_u64_to_le_bytes(x as u64).len() == 8);
        } else {
            assert(spec_u32_to_le_bytes(x as u32).len() == 4);
        }
    }

    fn width_exec() -> (r: usize) {
        if usize::MAX as u64 == u64::MAX {
            8
        } else {
            4
        }
    }

    fn to_bytes(self) -> (r: Vec<u8>) {
        if usize::MAX as u64 == u64::MAX {
            u64_to_le_bytes(self as u64)
        } else {
            u32_to_le_bytes(self as u32)
        }
    }

    fn from_bytes(b: &[u8]) -> (r: usize) {
        if usize::MAX as u64 == u64::MAX {
            u64_from_le_bytes(b) as usize
        } else {
            u32_from_le_bytes(b) as usize
        }
    }
}

/// The flat byte view of a sequence of elements: element `k / w`, byte `k % w`.
pub open spec fn bytes_of<U: Plain>(s: Seq<U>) -> Seq<u8> {
    Seq::new(
        s.len() * U::width(),
        |k: int| s[k / (U::width() as int)].spec_to_bytes()[k % (U::width() as int)],
    )
}

/// The elements whose byte view is `b`, for `b` whose length is a multiple of the width.
pub open spec fn elements_of<U: Plain>(b: Seq<u8>) -> Seq<U> {
    Seq::new(
        b.len() / U::width(),
        |i: int|
            U::spec_from_bytes(
                b.subrange(i * (U::width() as int), i * (U::width() as int) + U::width() as int),
            ),
    )
}

proof fn lemma_index_split(i: int, j: int, w: int)
    requires
        0 <= i,
        0 <= j < w,
    ensures
        (i * w + j) / w == i,
        (i * w + j) % w == j,
{
    lemma_fundamental_div_mod_converse(i * w + j, w, i, j);
}

proof fn lemma_div_mod_parts(k: int, w: int)
    requires
        0 <= k,
        0 < w,
    ensures
        k == (k / w) * w + k % w,
        0 <= k % w < w,
        0 <= k / w,
{
    lemma_fundamental_div_mod(k, w);
    lemma_mod_pos_bound(k, w);
    lemma_div_pos_is_pos(k, w);
    assert(w * (k / w) == (k / w) * w) by (nonlinear_arith);
}

/// Reading the byte view of a sequence back gives the sequence.
pub proof fn lemma_elements_of_bytes_of<U: Plain>(s: Seq<U>)
    ensures
        bytes_of(s).len() == s.len() * U::width(),
        bytes_of(s).len() % U::width() == 0,
        elements_of::<U>(bytes_of(s)) == s,
{
    let w = U::width() as int;
    let b = bytes_of(s);
    U::lemma_bytes_bijective(arbitrary(), Seq::empty());
    lemma_fundamental_div_mod_converse(s.len() * w, w, s.len() as int, 0);
    assert forall|i: int| 0 <= i < s.len() implies #[trigger] elements_of::<U>(b)[i] == s[i] by {
        U::lemma_bytes_bijective(s[i], Seq::empty());
        assert(i * w + w <= s.len() * w) by (nonlinear_arith)
            requires
                i < s.len(),
                w > 0,
        ;
        assert(0 <= i * w) by (nonlinear_arith)
            requires
                0 <= i,
                w > 0,
        ;
        assert forall|j: int| 0 <= j < w implies #[trigger] b.subrange(i * w, i * w + w)[j]
            == s[i].spec_to_bytes()[j] by {
            lemma_index_split(i, j, w);
        }
        assert(b.subrange(i * w, i * w + w) =~= s[i].spec_to_bytes());
    }
    assert(elements_of::<U>(b) =~= s);
}

/// The empty sequence has no bytes, and no bytes read back as the empty sequence.
pub proof fn lemma_empty_sequence<U: Plain>()
    ensures
        bytes_of(Seq::<U>::empty()) == Seq::<u8>::empty(),
        elements_of::<U>(Seq::empty()) == Seq::<U>::empty(),
{
    U::lemma_bytes_bijective(arbitrary(), Seq::empty());
    assert(bytes_of(Seq::<U>::empty()) =~= Seq::<u8>::empty());
    assert(elements_of::<U>(Seq::empty()) =~= Seq::<U>::empty());
}

/// The byte view of the elements read from `b` is `b` again.
pub proof fn lemma_bytes_of_elements_of<U: Plain>(b: Seq<u8>)
    requires
        b.len() % U::width() == 0,
    ensures
        bytes_of(elements_of::<U>(b)) == b,
{
    let w = U::width() as int;
    let e = elements_of::<U>(b);
    U::lemma_bytes_bijective(arbitrary(), Seq::empty());
    let n = (b.len() as int) / w;
    lemma_div_mod_parts(b.len() as int, w);
    assert(e.len() * w == b.len()) by (nonlinear_arith)
        requires
            e.len() == n,
            b.len() == n * w,
    ;
    assert forall|k: int| 0 <= k < b.len() implies #[trigger] bytes_of(e)[k] == b[k] by {
        let q = k / w;
        let r = k % w;
        lemma_div_mod_parts(k, w);
        assert(0 <= q < n && q * w + w <= b.len()) by (nonlinear_arith)
            requires
                0 <= k < b.len(),
                b.len() == n * w,
                k == q * w + r,
                0 <= r < w,
        ;
        let chunk = b.subrange(q * w, q * w + w);
        U::lemma_bytes_bijective(arbitrary(), chunk);
        assert(chunk[r] == b[k]);
    }
    assert(bytes_of(e) =~= b);
}

/// The byte view of `v`, element after element.
pub fn byte_view<U: Plain>(v: &[U]) -> (r: Vec<u8>)
    requires
        v@.len() * U::width() <= usize::MAX,
    ensures
        r@ == bytes_of(v@),
{
    let w = U::width_exec();
    proof {
        U::lemma_bytes_bijective(arbitrary(), Seq::empty());
    }
    let mut out: Vec<u8> = Vec::new();
    let mut i: usize = 0;
    while i < v.len()
        invariant
            w as nat == U::width(),
            1 <= w <= 16,
            v@.len() * U::width() <= usize::MAX,
            i <= v@.len(),
            out@ == bytes_of(v@.subrange(0, i as int)),
        decreases v@.len() - i,
    {
        let ghost prev = out@;
        let x = v[i];
        let bytes = x.to_bytes();
        proof {
            U::lemma_bytes_bijective(x, Seq::empty());
        }
        let mut j: usize = 0;
        while j < w
            invariant
                w as nat == U::width(),
                bytes@ == x.spec_to_bytes(),
                bytes@.len() == w,
                j <= w,
                out@ == prev + bytes@.subrange(0, j as int),
            decreases w - j,
        {
            out.push(bytes[j]);
            assert(out@ =~= prev + bytes@.subrange(0, j + 1));
            j = j + 1;
        }
        proof {
            let wi = w as int;
            let ii = i as int;
            let next = v@.subrange(0, ii + 1);
            assert(bytes@.subrange(0, wi) =~= bytes@);
            assert(ii * wi + wi == (ii + 1) * wi) by (nonlinear_arith);
            assert(0 <= ii * wi) by (nonlinear_arith)
                requires
                    0 <= ii,
                    wi > 0,
            ;
            assert forall|k: int| 0 <= k < (ii + 1) * wi implies #[trigger] bytes_of(next)[k]
                == out@[k] by {
                let q = k / wi;
                let r = k % wi;
                lemma_div_mod_parts(k, wi);
                if k < ii * wi {
                    assert(q < ii) by (nonlinear_arith)
                        requires
                            k == q * wi + r,
                            0 <= r,
                            k < ii * wi,
                            wi > 0,
                    ;
                    assert(0 <= q) by (nonlinear_arith)
                        requires
                            k == q * wi + r,
                            0 <= k,
                            r < wi,
                            wi > 0,
                    ;
                    assert(bytes_of(v@.subrange(0, ii))[k] == out@[k]);
                } else {
                    lemma_index_split(ii, k - ii * wi, wi);
                }
            }
            assert(bytes_of(next) =~= out@);
        }
        i = i + 1;
    }
    assert(v@.subrange(0, v@.len() as int) =~= v@);
    out
}

/// Reads `b` as a sequence of elements; `None` when its length is not a
/// multiple of the element width.
pub fn read_elements<U: Plain>(b: &[u8]) -> (r: Option<Vec<U>>)
    ensures
        r is Some <==> b@.len() % U::width() == 0,
        r matches Some(v) ==> v@ == elements_of::<U>(b@),
{
    let w = U::width_exec();
    proof {
        U::lemma_bytes_bijective(arbitrary(), Seq::empty());
    }
    if b.len() % w != 0 {
        return None;
    }
    let len = b.len();
    let n = len / w;
    proof {
        lemma_div_mod_parts(b@.len() as int, w as int);
    }
    let mut out: Vec<U> = Vec::new();
    let mut i: usize = 0;
    while i < n
        invariant
            w as nat == U::width(),
            1 <= w <= 16,
            n == b@.len() / U::width(),
            b@.len() == n * w,
            len == b@.len(),
            i <= n,
            out@ =~= elements_of::<U>(b@).subrange(0, i as int),
        decreases n - i,
    {
        proof {
            assert((i + 1) * w <= n * w) by (nonlinear_arith)
                requires
                    i < n,
                    w > 0,
            ;
            assert(i * w + w == (i + 1) * w) by (nonlinear_arith);
        }
        let start = i * w;
        let chunk = slice_subrange(b, start, start + w);
        let x = U::from_bytes(chunk);
        out.push(x);
        i = i + 1;
    }
    Some(out)
}

} // verus!
