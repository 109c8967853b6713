//! The instruction model: what an interface description declares, the cases
//! generated from it and the records kept of their execution.
use vstd::prelude::*;

verus! {

/// A 32-byte account or program address.
#[derive(Debug, Clone, Copy)]
pub struct Address {
    pub bytes: [u8; 32],
}

impl View for Address {
    type V = Seq<u8>;

    open spec fn view(&self) -> Seq<u8> {
        self.bytes@
    }
}

/// One piece of seed material of a derived account.
#[derive(Debug)]
pub enum SeedSpec {
    /// Fixed bytes, taken verbatim.
    Const(Vec<u8>),
    /// The resolved address of the account of that name.
    Account(String),
}

/// Ghost model of a [`SeedSpec`].
pub enum SeedView {
    Const(Seq<u8>),
    Account(Seq<char>),
}

impl View for SeedSpec {
    type V = SeedView;

    open spec fn view(&self) -> SeedView {
        match self {
            SeedSpec::Const(b) => SeedView::Const(b@),
            SeedSpec::Account(n) => SeedView::Account(n@),
        }
    }
}

impl Clone for SeedSpec {
    fn clone(&self) -> (r: Self)
        ensures
            r@ == self@,
    {
        match self {
            SeedSpec::Const(b) => {
                let c = b.clone();
                assert(c@ =~= b@);
                SeedSpec::Const(c)
            },
            SeedSpec::Account(n) => SeedSpec::Account(n.clone()),
        }
    }
}

/// One account slot of an instruction.
#[derive(Debug)]
pub struct AccountSpec {
    pub name: String,
    pub signer: bool,
    pub writable: bool,
    /// Empty when the account is not a derived address.
    pub pda_seeds: Vec<SeedSpec>,
}

/// Ghost model of an [`AccountSpec`].
pub struct AccountView {
    pub name: Seq<char>,
    pub signer: bool,
    pub writable: bool,
    pub seeds: Seq<SeedView>,
}

impl View for AccountSpec {
    type V = AccountView;

    open spec fn view(&self) -> AccountView {
        AccountView {
            name: self.name@,
            signer: self.signer,
            writable: self.writable,
            seeds: self.pda_seeds@.map_values(|s: SeedSpec| s@),
        }
    }
}

impl Clone for AccountSpec {
    fn clone(&self) -> (r: Self)
        ensures
            r@ == self@,
    {
        let seeds = self.pda_seeds.clone();
        let r = AccountSpec {
            name: self.name.clone(),
            signer: self.signer,
            writable: self.writable,
            pda_seeds: seeds,
        };
        assert(r@.seeds =~= self@.seeds);
        r
    }
}

/// A primitive argument type.
#[derive(Debug, Clone, Copy, PartialEq, Eq, Structural)]
pub enum PrimType {
    Bool,
    U8,
    I8,
    U16,
    I16,
    U32,
    I32,
    U64,
    I64,
    U128,
    I128,
    Pubkey,
}

/// Why an argument type has no zero encoding.
#[derive(Debug, Clone, Copy, PartialEq, Eq, Structural)]
pub enum TypeError {
    /// A type name that is not one of the primitives.
    UnknownPrimitive,
    /// An array descriptor that is not a pair of element type and length.
    InvalidArray,
    /// An array length that is not a non-negative integer.
    InvalidArrayLen,
    /// A descriptor that is neither a primitive name nor an array.
    Complex,
    /// An encoding whose size does not fit in memory.
    TooLarge,
}

/// The declared type of an argument, decoded once from its descriptor.
#[derive(Debug)]
pub enum ArgType {
    Prim(PrimType),
    /// A fixed-length array of an element type.
    Array(Box<ArgType>, u64),
    /// A descriptor that has no zero encoding, with the reason.
    Unsupported(TypeError),
}

impl Clone for ArgType {
    fn clone(&self) -> (r: Self)
        ensures
            r == *self,
        decreases self,
    {
        match self {
            ArgType::Prim(p) => ArgType::Prim(*p),
            ArgType::Array(inner, n) => {
                let c: ArgType = (&**inner).clone();
                ArgType::Array(Box::new(c), *n)
            },
            ArgType::Unsupported(e) => ArgType::Unsupported(*e),
        }
    }
}

/// One declared argument of an instruction.
#[derive(Debug)]
pub struct ArgSpec {
    pub name: String,
    pub ty: ArgType,
}

/// Ghost model of an [`ArgSpec`].
pub struct ArgView {
    pub name: Seq<char>,
    pub ty: ArgType,
}

impl View for ArgSpec {
    type V = ArgView;

    open spec fn view(&self) -> ArgView {
        ArgView { name: self.name@, ty: self.ty }
    }
}

impl Clone for ArgSpec {
    fn clone(&self) -> (r: Self)
        ensures
            r@ == self@,
    {
        ArgSpec { name: self.name.clone(), ty: self.ty.clone() }
    }
}

/// One callable entry point of a program.
#[derive(Debug)]
pub struct InstructionSpec {
    pub name: String,
    /// The call-routing tag that starts the call data.
    pub discriminator: Vec<u8>,
    pub accounts: Vec<AccountSpec>,
    pub args: Vec<ArgSpec>,
}

/// Ghost model of an [`InstructionSpec`].
pub struct InstructionView {
    pub name: Seq<char>,
    pub discriminator: Seq<u8>,
    pub accounts: Seq<AccountView>,
    pub args: Seq<ArgView>,
}

impl View for InstructionSpec {
    type V = InstructionView;

    open spec fn view(&self) -> InstructionView {
        InstructionView {
            name: self.name@,
            discriminator: self.discriminator@,
            accounts: self.accounts@.map_values(|a: AccountSpec| a@),
            args: self.args@.map_values(|a: ArgSpec| a@),
        }
    }
}

impl Clone for InstructionSpec {
    fn clone(&self) -> (r: Self)
        ensures
            r@ == self@,
    {
        let d = self.discriminator.clone();
        assert(d@ =~= self.discriminator@);
        let r = InstructionSpec {
            name: self.name.clone(),
            discriminator: d,
            accounts: self.accounts.clone(),
            args: self.args.clone(),
        };
        assert(r@.accounts =~= self@.accounts);
        assert(r@.args =~= self@.args);
        r
    }
}

/// A program and the instructions parsed from its interface description.
#[derive(Debug)]
pub struct ProgramSpec {
    /// The file name of the description.
    pub idl_file: String,
    pub program_id: Address,
    /// The path of the compiled artifact.
    pub deploy_so: String,
    pub instructions: Vec<InstructionSpec>,
}

/// Ghost model of a [`ProgramSpec`].
pub struct ProgramView {
    pub idl_file: Seq<char>,
    pub program_id: Seq<u8>,
    pub deploy_so: Seq<char>,
    pub instructions: Seq<InstructionView>,
}

impl View for ProgramSpec {
    type V = ProgramView;

    open spec fn view(&self) -> ProgramView {
        ProgramView {
            idl_file: self.idl_file@,
            program_id: self.program_id@,
            deploy_so: self.deploy_so@,
            instructions: self.instructions@.map_values(|i: InstructionSpec| i@),
        }
    }
}

/// How a case departs from the well-formed invocation.
#[derive(Debug)]
pub enum Mutation {
    /// The unmodified baseline.
    Baseline,
    /// The invocation is routed to an unrelated program address.
    WrongProgramId,
    /// The last byte of the call data is dropped.
    TruncateData,
    /// The named derived account gets an unrelated address.
    WrongPda { account: String },
}

/// Ghost model of a [`Mutation`].
pub enum MutationView {
    Baseline,
    WrongProgramId,
    TruncateData,
    WrongPda(Seq<char>),
}

impl View for Mutation {
    type V = MutationView;

    open spec fn view(&self) -> MutationView {
        match self {
            Mutation::Baseline => MutationView::Baseline,
            Mutation::WrongProgramId => MutationView::WrongProgramId,
            Mutation::TruncateData => MutationView::TruncateData,
            Mutation::WrongPda { account } => MutationView::WrongPda(account@),
        }
    }
}

impl Clone for Mutation {
    fn clone(&self) -> (r: Self)
        ensures
            r@ == self@,
    {
        match self {
            Mutation::Baseline => Mutation::Baseline,
            Mutation::WrongProgramId => Mutation::WrongProgramId,
            Mutation::TruncateData => Mutation::TruncateData,
            Mutation::WrongPda { account } => Mutation::WrongPda { account: account.clone() },
        }
    }
}

/// What the outcome of a case must be.
#[derive(Debug, Clone, Copy, PartialEq, Eq, Structural)]
pub enum Expectation {
    /// The program must reject the invocation.
    MustFail,
    /// No assertion on the outcome.
    Any,
}

/// One synthesized invocation of an instruction.
#[derive(Debug)]
pub struct EdgeCase {
    pub id: String,
    pub idl_file: String,
    pub program_id: Address,
    pub instruction: InstructionSpec,
    pub mutation: Mutation,
    pub expectation: Expectation,
}

/// Ghost model of an [`EdgeCase`].
pub struct EdgeCaseView {
    pub id: Seq<char>,
    pub idl_file: Seq<char>,
    pub program_id: Seq<u8>,
    pub instruction: InstructionView,
    pub mutation: MutationView,
    pub expectation: Expectation,
}

impl View for EdgeCase {
    type V = EdgeCaseView;

    open spec fn view(&self) -> EdgeCaseView {
        EdgeCaseView {
            id: self.id@,
            idl_file: self.idl_file@,
            program_id: self.program_id@,
            instruction: self.instruction@,
            mutation: self.mutation@,
            expectation: self.expectation,
        }
    }
}

/// The record of one executed case.
#[derive(Debug)]
pub struct ExecutedCase {
    pub id: String,
    pub idl_file: String,
    pub instruction: String,
    /// The mutation's label.
    pub mutation: String,
    /// `Some(false)` where the case must fail; `None` where anything goes.
    pub expected_success: Option<bool>,
    pub actual_success: bool,
    /// Whether the outcome met the expectation.
    pub passed: bool,
    /// The diagnostic of a failed invocation.
    pub error: Option<String>,
}

/// The result of one preflight check of a run.
#[derive(Debug)]
pub struct CheckResult {
    pub name: &'static str,
    pub ok: bool,
    pub detail: String,
    /// What to do about a failed check.
    pub hint: Option<String>,
}

impl CheckResult {
    /// A check that passed.
    pub fn pass(name: &'static str, detail: String) -> (r: Self)
        ensures
            r.name@ == name@,
            r.ok,
            r.detail@ == detail@,
            r.hint is None,
    {
        CheckResult { name, ok: true, detail, hint: None }
    }

    /// A check that failed, with a hint on how to mend it.
    pub fn fail(name: &'static str, detail: String, hint: String) -> (r: Self)
        ensures
            r.name@ == name@,
            !r.ok,
            r.detail@ == detail@,
            r.hint matches Some(h) && h@ == hint@,
    {
        CheckResult { name, ok: false, detail, hint: Some(hint) }
    }
}

/// The outcome of the optional external smoke test.
#[derive(Debug)]
pub struct SmokeResult {
    pub ok: bool,
    pub detail: String,
    pub stdout: String,
    pub stderr: String,
}

} // verus!
