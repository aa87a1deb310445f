//! The decisions the tensor wrapper takes around its libtorch calls:
//! shape and buffer checks, error messages, and the codes it passes on.
use crate::device::Device;
use crate::error::TchError;
use crate::format::{decimal, dims_debug, dims_debug_string, decimal_string, int_decimal};
use crate::kind::{elt_size, kind_name, Kind};
use crate::nn::init::{dims_product, running_products_fit};
use vstd::prelude::*;

verus! {

/// How a tensor of `n` dimensions is called in shape errors.
pub open spec fn dim_name(n: nat) -> Seq<char> {
    if n == 0 {
        "zero dims"@
    } else if n == 1 {
        "one dim"@
    } else if n == 2 {
        "two dims"@
    } else if n == 3 {
        "three dims"@
    } else if n == 4 {
        "four dims"@
    } else if n == 5 {
        "five dims"@
    } else if n == 6 {
        "six dims"@
    } else {
        "N dims"@
    }
}

fn dim_name_str(n: usize) -> (s: &'static str)
    ensures
        s@ == dim_name(n as nat),
{
    if n == 0 {
        "zero dims"
    } else if n == 1 {
        "one dim"
    } else if n == 2 {
        "two dims"
    } else if n == 3 {
        "three dims"
    } else if n == 4 {
        "four dims"
    } else if n == 5 {
        "five dims"
    } else if n == 6 {
        "six dims"
    } else {
        "N dims"
    }
}

/// The message of a rank mismatch: `expected two dims, got [2, 3, 4]`.
pub open spec fn rank_message(n: nat, shape: Seq<i64>) -> Seq<char> {
    "expected "@ + dim_name(n) + ", got "@ + dims_debug(shape)
}

/// Checks that a tensor of shape `shape` has `n` dimensions, as the
/// `size1` to `size6` and `stride1` to `stride6` accessors require.
pub fn check_dims(shape: &[i64], n: usize) -> (r: Result<(), TchError>)
    ensures
        r is Ok <==> shape@.len() == n,
        r matches Err(e) ==> e is Shape && e.message() == rank_message(n as nat, shape@),
{
    if shape.len() != n {
        let mut m = String::from_str("expected ");
        m.append(dim_name_str(n));
        m.append(", got ");
        let dims = dims_debug_string(shape);
        m.append(dims.as_str());
        return Err(TchError::Shape(m));
    }
    Ok(())
}

/// The number of elements of a tensor of shape `shape`, computed in `i64`
/// and read as a `usize`.
pub fn numel_of(shape: &[i64]) -> (n: usize)
    requires
        running_products_fit(shape@),
    ensures
        n == (dims_product(shape@) as i64) as usize,
{
    let mut p: i64 = 1;
    let mut i: usize = 0;
    assert(shape@.take(0) =~= Seq::<i64>::empty());
    while i < shape.len()
        invariant
            i <= shape.len(),
            running_products_fit(shape@),
            p == dims_product(shape@.take(i as int)),
        decreases shape.len() - i,
    {
        assert(shape@.take(i + 1).drop_last() =~= shape@.take(i as int));
        assert(i64::MIN <= dims_product(shape@.take(i + 1)) <= i64::MAX);
        p = p * shape[i];
        i += 1;
    }
    assert(shape@.take(shape.len() as int) =~= shape@);
    p as usize
}

/// The message of a destination buffer too short for `numel` elements.
pub open spec fn short_slice_message(numel: nat) -> Seq<char> {
    "slice len < "@ + decimal(numel)
}

fn short_slice_error(numel: usize) -> (e: TchError)
    ensures
        e is Shape,
        e.message() == short_slice_message(numel as nat),
{
    let mut m = String::from_str("slice len < ");
    let n = decimal_string(numel as u64);
    m.append(n.as_str());
    TchError::Shape(m)
}

/// Checks that a byte buffer of `dst_len` bytes can receive `numel`
/// elements of kind `kind`, before copying a tensor's data into it.
pub fn check_copy_data_u8(kind: Kind, dst_len: usize, numel: usize) -> (r: Result<(), TchError>)
    requires
        numel * elt_size(kind) <= usize::MAX,
    ensures
        r is Ok <==> dst_len >= numel * elt_size(kind),
        r matches Err(e) ==> e is Shape && e.message() == short_slice_message(numel as nat),
{
    let elt_size_in_bytes = kind.elt_size_in_bytes();
    if dst_len < numel * elt_size_in_bytes {
        return Err(short_slice_error(numel));
    }
    Ok(())
}

/// The message of a copy into a buffer of another kind.
pub open spec fn incoherent_kind_message(tensor_kind: Kind, elt_kind: Kind) -> Seq<char> {
    "incoherent elt kind, Ok("@ + kind_name(tensor_kind) + ") != "@ + kind_name(elt_kind)
}

/// Checks that a buffer of `dst_len` elements of kind `elt_kind` can
/// receive `numel` elements of a tensor of kind `tensor_kind`.
pub fn check_copy_data(tensor_kind: Kind, elt_kind: Kind, dst_len: usize, numel: usize) -> (r:
    Result<(), TchError>)
    ensures
        r is Ok <==> (tensor_kind == elt_kind && dst_len >= numel),
        r matches Err(e) ==> if tensor_kind != elt_kind {
            e is Kind && e.message() == incoherent_kind_message(tensor_kind, elt_kind)
        } else {
            e is Shape && e.message() == short_slice_message(numel as nat)
        },
{
    if elt_kind != tensor_kind {
        let mut m = String::from_str("incoherent elt kind, Ok(");
        m.append(tensor_kind.name());
        m.append(") != ");
        m.append(elt_kind.name());
        return Err(TchError::Kind(m));
    }
    if dst_len < numel {
        return Err(short_slice_error(numel));
    }
    Ok(())
}

/// Whether `len` bytes hold a tensor of shape `size` with elements of
/// `elt` bytes: every dimension is a `usize`, the element count and the
/// byte count fit in a `usize` all along their computation, and `len` is
/// at least the byte count.
pub open spec fn data_fits(len: nat, size: Seq<i64>, elt: nat) -> bool {
    &&& forall|i: int| 0 <= i < size.len() ==> 0 <= #[trigger] size[i] <= usize::MAX
    &&& forall|k: int| 0 <= k <= size.len() ==> #[trigger] dims_product(size.take(k)) <= usize::MAX
    &&& dims_product(size) * elt <= usize::MAX
    &&& len >= dims_product(size) * elt
}

/// Law: a buffer holds a tensor only if it has a byte for every byte of
/// every element: at least the product of the dimensions times the size of
/// an element, with no dimension negative. In particular `n` bytes never
/// hold `n` elements of more than one byte.
pub proof fn lemma_data_fits_bytes(len: nat, size: Seq<i64>, elt: nat)
    requires
        data_fits(len, size, elt),
    ensures
        len >= dims_product(size) * elt,
        forall|i: int| 0 <= i < size.len() ==> #[trigger] size[i] >= 0,
        dims_product(size) >= 0,
        elt > 1 && dims_product(size) > 0 ==> len > dims_product(size),
{
    assert(size.take(size.len() as int) =~= size);
    lemma_dims_product_nonneg(size);
    if elt > 1 && dims_product(size) > 0 {
        let n = dims_product(size);
        assert(n * elt > n) by (nonlinear_arith)
            requires
                elt > 1,
                n > 0,
        ;
    }
}

/// A product of non-negative dimensions is non-negative.
proof fn lemma_dims_product_nonneg(size: Seq<i64>)
    requires
        forall|i: int| 0 <= i < size.len() ==> 0 <= #[trigger] size[i],
    ensures
        dims_product(size) >= 0,
    decreases size.len(),
{
    if size.len() > 0 {
        let init = size.drop_last();
        assert forall|i: int| 0 <= i < init.len() implies 0 <= #[trigger] init[i] by {
            assert(init[i] == size[i]);
        }
        lemma_dims_product_nonneg(init);
        let a = dims_product(init);
        let b = size.last() as int;
        assert(a * b >= 0) by (nonlinear_arith)
            requires
                a >= 0,
                b >= 0,
        ;
    }
}

/// The message of a buffer that cannot hold a tensor.
pub open spec fn data_size_message(len: nat, size: Seq<i64>, kind: Kind) -> Seq<char> {
    decimal(len) + " bytes of data do not fit a tensor of shape "@ + dims_debug(size)
        + " and kind "@ + kind_name(kind)
}

/// Checks that `data_len` bytes of data hold a tensor of shape `size` and
/// kind `kind`, before the bytes are copied into a new tensor: a short
/// buffer would otherwise be read out of bounds.
pub fn check_data_size(data_len: usize, size: &[i64], kind: Kind) -> (r: Result<(), TchError>)
    ensures
        r is Ok <==> data_fits(data_len as nat, size@, elt_size(kind)),
        r is Ok ==> data_len >= dims_product(size@) * elt_size(kind),
        r is Ok ==> forall|i: int| 0 <= i < size@.len() ==> #[trigger] size@[i] >= 0,
        r matches Err(e) ==> e is Shape && e.message() == data_size_message(
            data_len as nat,
            size@,
            kind,
        ),
{
    let elt_size_in_bytes = kind.elt_size_in_bytes();
    let mut numel: usize = 1;
    let mut i: usize = 0;
    let mut fits = true;
    assert(size@.take(0) =~= Seq::<i64>::empty());
    assert(size@.take(size.len() as int) =~= size@);
    while i < size.len()
        invariant_except_break
            fits,
        invariant
            i <= size.len(),
            size@.take(size.len() as int) == size@,
            numel == dims_product(size@.take(i as int)),
            forall|j: int| 0 <= j < i ==> 0 <= #[trigger] size@[j] <= usize::MAX,
            forall|k: int| 0 <= k <= i ==> #[trigger] dims_product(size@.take(k)) <= usize::MAX,
            dims_product(size@.take(i as int)) >= 0,
        ensures
            fits ==> i == size.len(),
            fits ==> numel == dims_product(size@),
            fits ==> forall|j: int| 0 <= j < size.len() ==> 0 <= #[trigger] size@[j] <= usize::MAX,
            fits ==> forall|k: int|
                0 <= k <= size.len() ==> #[trigger] dims_product(size@.take(k)) <= usize::MAX,
            !fits ==> !data_fits(data_len as nat, size@, elt_size(kind)),
        decreases size.len() - i,
    {
        let d = size[i];
        let ghost t = size@.take(i + 1);
        assert(t.drop_last() =~= size@.take(i as int));
        if d < 0 || d as u64 > usize::MAX as u64 {
            assert(!(0 <= size@[i as int] <= usize::MAX));
            fits = false;
            break;
        }
        let du = d as usize;
        proof {
            assert(t.last() == d);
            assert(dims_product(t) == numel * du);
            assert(numel * du >= 0) by (nonlinear_arith)
                requires
                    numel >= 0,
                    du >= 0,
            ;
        }
        match numel.checked_mul(du) {
            Some(m) => {
                numel = m;
            },
            None => {
                assert(dims_product(size@.take(i + 1)) > usize::MAX);
                fits = false;
                break;
            },
        }
        i += 1;
    }
    if fits {
        assert(size@.take(size.len() as int) =~= size@);
        match numel.checked_mul(elt_size_in_bytes) {
            Some(expected) => {
                if data_len >= expected {
                    return Ok(());
                }
            },
            None => {},
        }
    }
    let mut m = decimal_string(data_len as u64);
    m.append(" bytes of data do not fit a tensor of shape ");
    let dims = dims_debug_string(size);
    m.append(dims.as_str());
    m.append(" and kind ");
    m.append(kind.name());
    Err(TchError::Shape(m))
}

/// The autocast device-type code shared with the C shims: 0 for the CPU,
/// 1 for CUDA devices, 2 for MPS. Autocast is not supported on Vulkan.
pub fn autocast_device_type_c(device: Device) -> (c: libc::c_int)
    requires
        device != Device::Vulkan,
    ensures
        c == (match device {
            Device::Cpu => 0int,
            Device::Cuda(_) => 1int,
            _ => 2int,
        }),
{
    match device {
        Device::Cpu => 0,
        Device::Cuda(_) => 1,
        _ => 2,
    }
}

/// How losses are reduced over a batch.
#[derive(Debug, Copy, Clone, PartialEq, Eq, Hash, Structural)]
pub enum Reduction {
    /// Do not reduce.
    NoReduction,
    /// Mean of losses.
    Mean,
    /// Sum of losses.
    Sum,
    /// Escape hatch in case new options become available.
    Other(i64),
}

impl Reduction {
    /// The code of the reduction for libtorch (`at::Reduction`).
    pub fn to_int(self) -> (r: i64)
        ensures
            r == match self {
                Reduction::NoReduction => 0,
                Reduction::Mean => 1,
                Reduction::Sum => 2,
                Reduction::Other(i) => i,
            },
    {
        // This has to stay in sync with
        // pytorch/aten/src/ATen/core/Reduction.h
        match self {
            Reduction::NoReduction => 0,
            Reduction::Mean => 1,
            Reduction::Sum => 2,
            Reduction::Other(i) => i,
        }
    }
}

/// `s` with every occurrence of `from` replaced by `to`.
pub open spec fn replace_char(s: Seq<char>, from: char, to: char) -> Seq<char> {
    s.map_values(|c: char| if c == from { to } else { c })
}

fn replace_all(s: &str, from: char, to: char) -> (r: String)
    requires
        to == '.' || to == '|',
    ensures
        r@ == replace_char(s@, from, to),
{
    let n = s.unicode_len();
    let mut r = String::new();
    let mut i: usize = 0;
    while i < n
        invariant
            to == '.' || to == '|',
            n == s@.len(),
            i <= n,
            r@ == replace_char(s@.take(i as int), from, to),
        decreases n - i,
    {
        let c = s.get_char(i);
        if c == from {
            let piece = char_string(to);
            r.append(piece.as_str());
        } else {
            r.append(s.substring_char(i, i + 1));
        }
        i += 1;
        assert(r@ =~= replace_char(s@.take(i as int), from, to));
    }
    assert(s@.take(n as int) =~= s@);
    r
}

fn char_string(c: char) -> (r: String)
    requires
        c == '.' || c == '|',
    ensures
        r@ == seq![c],
{
    proof {
        reveal_strlit(".");
        reveal_strlit("|");
    }
    if c == '.' {
        String::from_str(".")
    } else {
        String::from_str("|")
    }
}

/// The name under which a named tensor is saved: libtorch modules use
/// dots as separators, so the dots of the name are stored as `|`.
pub fn stored_name(name: &str) -> (r: String)
    ensures
        r@ == replace_char(name@, '.', '|'),
{
    replace_all(name, '.', '|')
}

/// The name of a loaded tensor, from the name it was stored under.
pub fn loaded_name(stored: &str) -> (r: String)
    ensures
        r@ == replace_char(stored@, '|', '.'),
{
    replace_all(stored, '|', '.')
}

/// Law: loading gives back the names that were saved, provided they do not
/// contain `|`.
pub proof fn lemma_stored_name_roundtrip(name: Seq<char>)
    requires
        !name.contains('|'),
    ensures
        replace_char(replace_char(name, '.', '|'), '|', '.') == name,
{
    let stored = replace_char(name, '.', '|');
    assert forall|i: int| 0 <= i < name.len() implies replace_char(stored, '|', '.')[i]
        == name[i] by {
        if name[i] == '|' {
            assert(name.contains('|'));
        }
    }
    assert(replace_char(stored, '|', '.') =~= name);
}

} // verus!
