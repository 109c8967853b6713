//! Turning a case into the invocation that is submitted, and judging what
//! came back.
use vstd::prelude::*;
use crate::encode::{encode_instruction_data, instruction_data, EncodeError};
use crate::model::{Address, EdgeCase, ExecutedCase, Expectation, Mutation, MutationView};
use crate::resolve::{
    build_accounts, extra_signers, final_bindings, resolved_metas, AccountRef,
};

verus! {

/// Relies on solana_keypair's `Keypair::new`, read through solana_signer's
/// `Signer::pubkey`: the address of a freshly generated keypair. Nothing is
/// known of it.
#[verifier::external_body]
fn fresh_address() -> (r: Address) {
    let pubkey = solana_signer::Signer::pubkey(&solana_keypair::Keypair::new());
    Address { bytes: pubkey.to_bytes() }
}

/// `n` freshly generated addresses, unrelated to anything else.
pub fn draw_addresses(n: usize) -> (r: Vec<Address>)
    ensures
        r@.len() == n,
{
    let mut out: Vec<Address> = Vec::new();
    let mut i: usize = 0;
    while i < n
        invariant
            0 <= i <= n,
            out@.len() == i,
        decreases n - i,
    {
        out.push(fresh_address());
        i = i + 1;
    }
    out
}

/// One synthesized invocation, ready to be submitted.
#[derive(Debug)]
pub struct Invocation {
    /// The program the invocation is routed to.
    pub program_id: Address,
    pub accounts: Vec<AccountRef>,
    pub data: Vec<u8>,
    /// The account slots whose independent signing identity signs too.
    pub extra_signers: Vec<usize>,
}

/// The call data that a case submits: truncated data loses its last byte.
pub open spec fn submitted_data(m: MutationView, data: Seq<u8>) -> Seq<u8> {
    if m is TruncateData && data.len() > 0 {
        data.drop_last()
    } else {
        data
    }
}

/// The program a case is routed to: a wrong-program case goes to `other`.
pub open spec fn routed_program(m: MutationView, program: Seq<u8>, other: Seq<u8>) -> Seq<u8> {
    if m is WrongProgramId {
        other
    } else {
        program
    }
}

/// Builds the invocation of `case` with payer `payer`, the addresses of an
/// independent signing identity and of a fresh address per account slot,
/// an unrelated address for a wrong derived address, and an unrelated program
/// address. Derivation always uses the case's own program address; only the
/// routing of a wrong-program case changes. Fails where an argument type has
/// no encoding.
pub fn build_invocation(
    case: &EdgeCase,
    payer: Address,
    signer_pool: &Vec<Address>,
    fresh: &Vec<Address>,
    replacement: Address,
    other_program: Address,
) -> (r: Result<Invocation, EncodeError>)
    requires
        signer_pool@.len() == case.instruction.accounts@.len(),
        fresh@.len() == case.instruction.accounts@.len(),
    ensures
        match instruction_data(case@.instruction) {
            Err((name, e)) => r matches Err(err) && err.arg@ == name && err.reason == e,
            Ok(d) => r matches Ok(inv) && inv.data@ == submitted_data(case@.mutation, d)
                && inv.program_id@ == routed_program(
                case@.mutation,
                case.program_id@,
                other_program@,
            ) && inv.accounts@.map_values(|m: AccountRef| m@) == resolved_metas(
                case@.instruction.accounts,
                final_bindings(
                    case@.instruction.accounts,
                    case.program_id@,
                    case.mutation@,
                    payer@,
                    signer_pool@.map_values(|a: Address| a@),
                    fresh@.map_values(|a: Address| a@),
                    replacement@,
                ),
            ) && inv.extra_signers@ == extra_signers(
                case@.instruction.accounts,
                case.instruction.accounts@.len() as int,
            ),
        },
{
    let resolved = build_accounts(case, payer, signer_pool, fresh, replacement);
    let mut data = encode_instruction_data(&case.instruction)?;
    let truncate = match &case.mutation {
        Mutation::TruncateData => true,
        _ => false,
    };
    if truncate && data.len() > 0 {
        data.pop();
        assert(data@ =~= submitted_data(case@.mutation, instruction_data(case@.instruction)->Ok_0));
    }
    let program_id = match &case.mutation {
        Mutation::WrongProgramId => other_program,
        _ => case.program_id,
    };
    Ok(
        Invocation {
            program_id,
            accounts: resolved.metas,
            data,
            extra_signers: resolved.extra_signers,
        },
    )
}

/// The other two mutations take effect too: truncated call data is the full
/// call data without its last byte (a discriminator of eight bytes alone
/// leaves seven), and a wrong-program case is routed to the other program
/// address.
pub proof fn lemma_truncation_and_routing(data: Seq<u8>, program: Seq<u8>, other: Seq<u8>)
    ensures
        data.len() > 0 ==> submitted_data(MutationView::TruncateData, data) == data.subrange(
            0,
            data.len() - 1,
        ),
        data.len() > 0 ==> submitted_data(MutationView::TruncateData, data).len() == data.len() - 1,
        routed_program(MutationView::WrongProgramId, program, other) == other,
        submitted_data(MutationView::Baseline, data) == data,
        routed_program(MutationView::Baseline, program, other) == program,
{
}

/// The label of a mutation in a record.
pub open spec fn mutation_label(m: MutationView) -> Seq<char> {
    match m {
        MutationView::Baseline => "none"@,
        MutationView::WrongProgramId => "wrong_program_id"@,
        MutationView::TruncateData => "truncate_data"@,
        MutationView::WrongPda(a) => "wrong_pda:"@ + a,
    }
}

impl Mutation {
    /// The label of the mutation in a record.
    pub fn label(&self) -> (r: String)
        ensures
            r@ == mutation_label(self@),
    {
        match self {
            Mutation::Baseline => String::from_str("none"),
            Mutation::WrongProgramId => String::from_str("wrong_program_id"),
            Mutation::TruncateData => String::from_str("truncate_data"),
            Mutation::WrongPda { account } => {
                let mut s = String::from_str("wrong_pda:");
                s.append(account.as_str());
                s
            },
        }
    }
}

/// Whether an outcome meets an expectation: anything meets `Any`; only a
/// failure meets `MustFail`.
pub open spec fn meets(e: Expectation, succeeded: bool) -> bool {
    match e {
        Expectation::Any => true,
        Expectation::MustFail => !succeeded,
    }
}

/// Records the outcome of executing `case`: `Ok` where the invocation
/// succeeded, else the diagnostic of the failure.
pub fn judge_case(case: &EdgeCase, outcome: Result<(), String>) -> (r: ExecutedCase)
    ensures
        r.id@ == case.id@,
        r.idl_file@ == case.idl_file@,
        r.instruction@ == case.instruction.name@,
        r.mutation@ == mutation_label(case.mutation@),
        r.expected_success == match case.expectation {
            Expectation::Any => None,
            Expectation::MustFail => Some(false),
        },
        r.actual_success == outcome is Ok,
        r.passed == meets(case.expectation, outcome is Ok),
        match outcome {
            Ok(_) => r.error is None,
            Err(e) => r.error == Some(e),
        },
{
    let (actual_success, error) = match outcome {
        Ok(()) => (true, None),
        Err(e) => (false, Some(e)),
    };
    let (expected_success, passed) = match case.expectation {
        Expectation::Any => (None, true),
        Expectation::MustFail => (Some(false), !actual_success),
    };
    ExecutedCase {
        id: case.id.clone(),
        idl_file: case.idl_file.clone(),
        instruction: case.instruction.name.clone(),
        mutation: case.mutation.label(),
        expected_success,
        actual_success,
        passed,
        error,
    }
}

} // verus!
