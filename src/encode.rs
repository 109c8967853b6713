//! Call data: the discriminator followed by a zero value of each argument type.
use vstd::prelude::*;
use crate::model::{ArgSpec, ArgType, ArgView, InstructionSpec, InstructionView, PrimType, TypeError};

verus! {

/// The number of bytes of a primitive type.
pub open spec fn prim_width(p: PrimType) -> nat {
    match p {
        PrimType::Bool | PrimType::U8 | PrimType::I8 => 1,
        PrimType::U16 | PrimType::I16 => 2,
        PrimType::U32 | PrimType::I32 => 4,
        PrimType::U64 | PrimType::I64 => 8,
        PrimType::U128 | PrimType::I128 => 16,
        PrimType::Pubkey => 32,
    }
}

/// The number of bytes of a type, or why it has no encoding: an array of n
/// elements of width w takes n * w bytes, unless that exceeds the address space.
pub open spec fn checked_width(t: ArgType) -> Result<nat, TypeError>
    decreases t,
{
    match t {
        ArgType::Prim(p) => Ok(prim_width(p)),
        ArgType::Array(inner, n) => match checked_width(*inner) {
            Ok(w) => if n as nat * w > usize::MAX as nat {
                Err(TypeError::TooLarge)
            } else {
                Ok(n as nat * w)
            },
            Err(e) => Err(e),
        },
        ArgType::Unsupported(e) => Err(e),
    }
}

/// `n` zero bytes.
pub open spec fn zeros(n: nat) -> Seq<u8> {
    Seq::new(n, |i: int| 0u8)
}

/// The length of the call data of a discriminator of `d` bytes followed by
/// `args`, or the first argument that cannot be encoded and why.
pub open spec fn data_len(d: nat, args: Seq<ArgView>) -> Result<nat, (Seq<char>, TypeError)>
    decreases args.len(),
{
    if args.len() == 0 {
        Ok(d)
    } else {
        match data_len(d, args.drop_last()) {
            Err(e) => Err(e),
            Ok(n) => match checked_width(args.last().ty) {
                Err(e) => Err((args.last().name, e)),
                Ok(w) => if n + w > usize::MAX as nat {
                    Err((args.last().name, TypeError::TooLarge))
                } else {
                    Ok(n + w)
                },
            },
        }
    }
}

/// The call data of an instruction: its discriminator and a zero value of each
/// argument, or the first argument that cannot be encoded and why.
pub open spec fn instruction_data(ix: InstructionView) -> Result<Seq<u8>, (Seq<char>, TypeError)> {
    match data_len(ix.discriminator.len(), ix.args) {
        Ok(n) => Ok(ix.discriminator + zeros((n - ix.discriminator.len()) as nat)),
        Err(e) => Err(e),
    }
}

impl TypeError {
    /// The diagnostic of the error.
    pub fn message(&self) -> (r: &'static str)
        ensures
            r@ == self.text(),
    {
        match self {
            TypeError::UnknownPrimitive => "primitive not supported",
            TypeError::InvalidArray => "invalid array type",
            TypeError::InvalidArrayLen => "invalid array len",
            TypeError::Complex => "complex arg type not supported",
            TypeError::TooLarge => "encoding too large",
        }
    }

    /// The diagnostic of the error, as text.
    pub open spec fn text(&self) -> Seq<char> {
        match self {
            TypeError::UnknownPrimitive => "primitive not supported"@,
            TypeError::InvalidArray => "invalid array type"@,
            TypeError::InvalidArrayLen => "invalid array len"@,
            TypeError::Complex => "complex arg type not supported"@,
            TypeError::TooLarge => "encoding too large"@,
        }
    }
}

/// An argument whose type has no zero encoding.
#[derive(Debug)]
pub struct EncodeError {
    pub arg: String,
    pub reason: TypeError,
}

impl EncodeError {
    /// The diagnostic of the error.
    pub fn message(&self) -> (r: String)
        ensures
            r@ == "arg "@ + self.arg@ + " type not supported: "@ + self.reason.text(),
    {
        let mut s = String::from_str("arg ");
        s.append(self.arg.as_str());
        s.append(" type not supported: ");
        s.append(self.reason.message());
        s
    }
}

fn prim_bytes(p: PrimType) -> (r: usize)
    ensures
        r == prim_width(p),
{
    match p {
        PrimType::Bool | PrimType::U8 | PrimType::I8 => 1,
        PrimType::U16 | PrimType::I16 => 2,
        PrimType::U32 | PrimType::I32 => 4,
        PrimType::U64 | PrimType::I64 => 8,
        PrimType::U128 | PrimType::I128 => 16,
        PrimType::Pubkey => 32,
    }
}

fn width_of(t: &ArgType) -> (r: Result<usize, TypeError>)
    ensures
        match checked_width(*t) {
            Ok(w) => r == Ok::<usize, TypeError>(w as usize),
            Err(e) => r == Err::<usize, TypeError>(e),
        },
        checked_width(*t) is Ok ==> checked_width(*t)->Ok_0 <= usize::MAX,
    decreases t,
{
    match t {
        ArgType::Prim(p) => Ok(prim_bytes(*p)),
        ArgType::Array(inner, n) => {
            let w = width_of(&**inner)?;
            if w == 0 {
                assert(*n as nat * 0 == 0) by (nonlinear_arith);
                return Ok(0);
            }
            if *n as u128 > usize::MAX as u128 {
                proof {
                    let nn = *n as nat;
                    let ww = w as nat;
                    assert(nn * ww >= nn) by (nonlinear_arith)
                        requires
                            ww >= 1,
                    ;
                }
                return Err(TypeError::TooLarge);
            }
            match (*n as usize).checked_mul(w) {
                Some(x) => Ok(x),
                None => Err(TypeError::TooLarge),
            }
        },
        ArgType::Unsupported(e) => Err(*e),
    }
}

/// The zero value of a type: as many zero bytes as the type is wide.
pub fn encode_arg_zero(ty: &ArgType) -> (r: Result<Vec<u8>, TypeError>)
    ensures
        match checked_width(*ty) {
            Ok(w) => r matches Ok(v) && v@ == zeros(w),
            Err(e) => r == Err::<Vec<u8>, TypeError>(e),
        },
{
    let w = width_of(ty)?;
    let v: Vec<u8> = vec![0u8; w];
    assert(v@ =~= zeros(w as nat));
    Ok(v)
}

/// The call data of an instruction: its discriminator, then a zero value of
/// each argument in order.
pub fn encode_instruction_data(ix: &InstructionSpec) -> (r: Result<Vec<u8>, EncodeError>)
    ensures
        match instruction_data(ix@) {
            Ok(d) => r matches Ok(v) && v@ == d,
            Err((name, e)) => r matches Err(err) && err.arg@ == name && err.reason == e,
        },
{
    let ghost args = ix@.args;
    let ghost d = ix.discriminator@.len();
    let mut out = ix.discriminator.clone();
    assert(out@ =~= ix.discriminator@);
    let mut i: usize = 0;
    while i < ix.args.len()
        invariant
            0 <= i <= ix.args@.len(),
            args == ix@.args,
            d == ix.discriminator@.len(),
            data_len(d, args.take(i as int)) == Ok::<nat, (Seq<char>, TypeError)>(out@.len()),
            out@ == ix.discriminator@ + zeros((out@.len() - d) as nat),
        decreases ix.args.len() - i,
    {
        let arg: &ArgSpec = &ix.args[i];
        assert(args.take(i as int + 1).drop_last() =~= args.take(i as int));
        assert(args.take(i as int + 1).last() == arg@);
        let mut bytes = match encode_arg_zero(&arg.ty) {
            Ok(b) => b,
            Err(e) => {
                assert(data_len(d, args.take(i as int + 1)) is Err);
                proof { lemma_data_len_err_stays(d, args, i as int + 1); }
                assert(args.take(args.len() as int) =~= args);
                return Err(EncodeError { arg: arg.name.clone(), reason: e });
            },
        };
        if bytes.len() > usize::MAX - out.len() {
            proof { lemma_data_len_err_stays(d, args, i as int + 1); }
            assert(args.take(args.len() as int) =~= args);
            return Err(EncodeError { arg: arg.name.clone(), reason: TypeError::TooLarge });
        }
        out.append(&mut bytes);
        assert(out@ =~= ix.discriminator@ + zeros((out@.len() - d) as nat));
        i = i + 1;
    }
    assert(args.take(i as int) =~= args);
    Ok(out)
}

/// Encoding a primitive type of width w gives exactly w zero bytes; encoding an
/// array of n elements of a type of width w gives exactly n * w zero bytes
/// (where that fits in memory).
pub proof fn lemma_zero_encoding_width(p: PrimType, elem: ArgType, n: u64)
    ensures
        checked_width(ArgType::Prim(p)) == Ok::<nat, TypeError>(prim_width(p)),
        zeros(prim_width(p)).len() == prim_width(p),
        checked_width(elem) is Ok && n * checked_width(elem)->Ok_0 <= usize::MAX ==> checked_width(
            ArgType::Array(Box::new(elem), n),
        ) == Ok::<nat, TypeError>(n as nat * checked_width(elem)->Ok_0),
        forall|w: nat, k: int| 0 <= k < w ==> #[trigger] zeros(w)[k] == 0,
{
}

proof fn lemma_data_len_err_stays(d: nat, args: Seq<ArgView>, k: int)
    requires
        0 <= k <= args.len(),
        data_len(d, args.take(k)) is Err,
    ensures
        data_len(d, args) == data_len(d, args.take(k)),
    decreases args.len() - k,
{
    if k < args.len() {
        assert(args.take(k + 1).drop_last() =~= args.take(k));
        lemma_data_len_err_stays(d, args, k + 1);
    } else {
        assert(args.take(k) =~= args);
    }
}

} // verus!
