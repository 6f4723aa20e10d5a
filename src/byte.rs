//! Big-endian byte sequences of unsigned integers.
use vstd::prelude::*;

verus! {

/// The last `k` bytes of `n` in big-endian order.
pub open spec fn be_bytes(n: nat, k: nat) -> Seq<u8>
    decreases k,
{
    if k == 0 {
        Seq::empty()
    } else {
        be_bytes(n / 256, (k - 1) as nat).push((n % 256) as u8)
    }
}

/// Each number as `k` big-endian bytes, one after another.
pub open spec fn be_concat(v: Seq<nat>, k: nat) -> Seq<u8>
    decreases v.len(),
{
    if v.len() == 0 {
        Seq::empty()
    } else {
        be_concat(v.drop_last(), k) + be_bytes(v.last(), k)
    }
}

/// The last `k` bytes of `x`, big-endian.
pub fn be_bytes_of(x: u128, k: usize) -> (r: Vec<u8>)
    ensures
        r@ == be_bytes(x as nat, k as nat),
    decreases k,
{
    if k == 0 {
        Vec::new()
    } else {
        let mut v = be_bytes_of(x / 256, k - 1);
        v.push((x % 256) as u8);
        v
    }
}

/// Conversion to a byte vector, most significant byte first.
pub trait Bytes<T> {
    spec fn byte_view(&self) -> Seq<u8>;

    /// To byte (unsigned 8-bit integer) vector.
    fn as_bytes(&self) -> (r: Vec<u8>)
        ensures
            r@ == self.byte_view(),
    ;
}

impl Bytes<u8> for u8 {
    open spec fn byte_view(&self) -> Seq<u8> {
        seq![*self]
    }

    fn as_bytes(&self) -> (r: Vec<u8>) {
        vec![*self]
    }
}

impl Bytes<Vec<u8>> for Vec<u8> {
    open spec fn byte_view(&self) -> Seq<u8> {
        self@
    }

    fn as_bytes(&self) -> (r: Vec<u8>) {
        self.clone()
    }
}

impl Bytes<u16> for u16 {
    open spec fn byte_view(&self) -> Seq<u8> {
        be_bytes(*self as nat, 2)
    }

    fn as_bytes(&self) -> (r: Vec<u8>) {
        be_bytes_of(*self as u128, 2)
    }
}

impl Bytes<u32> for u32 {
    open spec fn byte_view(&self) -> Seq<u8> {
        be_bytes(*self as nat, 4)
    }

    fn as_bytes(&self) -> (r: Vec<u8>) {
        be_bytes_of(*self as u128, 4)
    }
}

impl Bytes<u64> for u64 {
    open spec fn byte_view(&self) -> Seq<u8> {
        be_bytes(*self as nat, 8)
    }

    fn as_bytes(&self) -> (r: Vec<u8>) {
        be_bytes_of(*self as u128, 8)
    }
}

impl Bytes<u128> for u128 {
    open spec fn byte_view(&self) -> Seq<u8> {
        be_bytes(*self as nat, 16)
    }

    fn as_bytes(&self) -> (r: Vec<u8>) {
        be_bytes_of(*self, 16)
    }
}

/// The numbers of `v`, each as `k` big-endian bytes.
fn concat_be(v: &Vec<u128>, k: usize) -> (r: Vec<u8>)
    ensures
        r@ == be_concat(v@.map_values(|x: u128| x as nat), k as nat),
{
    let ghost nv = v@.map_values(|x: u128| x as nat);
    let mut r: Vec<u8> = Vec::new();
    let mut i: usize = 0;
    while i < v.len()
        invariant
            i <= v@.len(),
            nv == v@.map_values(|x: u128| x as nat),
            r@ == be_concat(nv.take(i as int), k as nat),
        decreases v@.len() - i,
    {
        let b = be_bytes_of(v[i], k);
        assert(nv.take(i + 1).drop_last() =~= nv.take(i as int));
        assert(nv.take(i + 1).last() == v@[i as int] as nat);
        r.extend_from_slice(b.as_slice());
        i = i + 1;
    }
    assert(nv.take(v@.len() as int) =~= nv);
    r
}

fn widen16(v: &Vec<u16>) -> (r: Vec<u128>)
    ensures
        r@.map_values(|x: u128| x as nat) == v@.map_values(|x: u16| x as nat),
{
    let mut r: Vec<u128> = Vec::new();
    let mut i: usize = 0;
    while i < v.len()
        invariant
            i <= v@.len(),
            r@.len() == i,
            forall|j: int| 0 <= j < i ==> r@[j] as nat == v@[j] as nat,
        decreases v@.len() - i,
    {
        r.push(v[i] as u128);
        i = i + 1;
    }
    assert(r@.map_values(|x: u128| x as nat) =~= v@.map_values(|x: u16| x as nat));
    r
}

fn widen32(v: &Vec<u32>) -> (r: Vec<u128>)
    ensures
        r@.map_values(|x: u128| x as nat) == v@.map_values(|x: u32| x as nat),
{
    let mut r: Vec<u128> = Vec::new();
    let mut i: usize = 0;
    while i < v.len()
        invariant
            i <= v@.len(),
            r@.len() == i,
            forall|j: int| 0 <= j < i ==> r@[j] as nat == v@[j] as nat,
        decreases v@.len() - i,
    {
        r.push(v[i] as u128);
        i = i + 1;
    }
    assert(r@.map_values(|x: u128| x as nat) =~= v@.map_values(|x: u32| x as nat));
    r
}

fn widen64(v: &Vec<u64>) -> (r: Vec<u128>)
    ensures
        r@.map_values(|x: u128| x as nat) == v@.map_values(|x: u64| x as nat),
{
    let mut r: Vec<u128> = Vec::new();
    let mut i: usize = 0;
    while i < v.len()
        invariant
            i <= v@.len(),
            r@.len() == i,
            forall|j: int| 0 <= j < i ==> r@[j] as nat == v@[j] as nat,
        decreases v@.len() - i,
    {
        r.push(v[i] as u128);
        i = i + 1;
    }
    assert(r@.map_values(|x: u128| x as nat) =~= v@.map_values(|x: u64| x as nat));
    r
}

impl Bytes<Vec<u16>> for Vec<u16> {
    open spec fn byte_view(&self) -> Seq<u8> {
        be_concat(self@.map_values(|x: u16| x as nat), 2)
    }

    fn as_bytes(&self) -> (r: Vec<u8>) {
        concat_be(&widen16(self), 2)
    }
}

impl Bytes<Vec<u32>> for Vec<u32> {
    open spec fn byte_view(&self) -> Seq<u8> {
        be_concat(self@.map_values(|x: u32| x as nat), 4)
    }

    fn as_bytes(&self) -> (r: Vec<u8>) {
        concat_be(&widen32(self), 4)
    }
}

impl Bytes<Vec<u64>> for Vec<u64> {
    open spec fn byte_view(&self) -> Seq<u8> {
        be_concat(self@.map_values(|x: u64| x as nat), 8)
    }

    fn as_bytes(&self) -> (r: Vec<u8>) {
        concat_be(&widen64(self), 8)
    }
}

impl Bytes<Vec<u128>> for Vec<u128> {
    open spec fn byte_view(&self) -> Seq<u8> {
        be_concat(self@.map_values(|x: u128| x as nat), 16)
    }

    fn as_bytes(&self) -> (r: Vec<u8>) {
        concat_be(self, 16)
    }
}

} // verus!
