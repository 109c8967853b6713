//! The case matrix: a baseline and structural mutations of every instruction.
use vstd::prelude::*;
use crate::model::{
    AccountView, EdgeCase, EdgeCaseView, Expectation, InstructionSpec, InstructionView, Mutation,
    MutationView, ProgramSpec, ProgramView,
};

verus! {

/// The identity of a case: description file, instruction and mutation kind.
pub open spec fn case_id(file: Seq<char>, ix: Seq<char>, kind: Seq<char>) -> Seq<char> {
    file + "_"@ + ix + "_"@ + kind
}

/// The case of instruction `ix` of program `p` with the given identity suffix,
/// mutation and expectation.
pub open spec fn case_of(
    p: ProgramView,
    ix: InstructionView,
    kind: Seq<char>,
    m: MutationView,
    e: Expectation,
) -> EdgeCaseView {
    EdgeCaseView {
        id: case_id(p.idl_file, ix.name, kind),
        idl_file: p.idl_file,
        program_id: p.program_id,
        instruction: ix,
        mutation: m,
        expectation: e,
    }
}

/// The wrong-derived-address cases of the accounts `accts` of `ix`, in order.
pub open spec fn pda_cases(p: ProgramView, ix: InstructionView, accts: Seq<AccountView>) -> Seq<
    EdgeCaseView,
>
    decreases accts.len(),
{
    if accts.len() == 0 {
        Seq::empty()
    } else {
        let a = accts.last();
        let rest = pda_cases(p, ix, accts.drop_last());
        if a.seeds.len() > 0 {
            rest.push(
                case_of(
                    p,
                    ix,
                    "wrong_pda_"@ + a.name,
                    MutationView::WrongPda(a.name),
                    Expectation::MustFail,
                ),
            )
        } else {
            rest
        }
    }
}

/// The cases of one instruction: baseline, wrong program, truncated data, then
/// one wrong derived address per derived account.
pub open spec fn instruction_cases(p: ProgramView, ix: InstructionView) -> Seq<EdgeCaseView> {
    seq![
        case_of(p, ix, "base"@, MutationView::Baseline, Expectation::Any),
        case_of(p, ix, "wrong_program"@, MutationView::WrongProgramId, Expectation::MustFail),
        case_of(p, ix, "truncate_data"@, MutationView::TruncateData, Expectation::MustFail),
    ] + pda_cases(p, ix, ix.accounts)
}

/// The cases of the instructions `ixs` of program `p`, in order.
pub open spec fn program_cases(p: ProgramView, ixs: Seq<InstructionView>) -> Seq<EdgeCaseView>
    decreases ixs.len(),
{
    if ixs.len() == 0 {
        Seq::empty()
    } else {
        program_cases(p, ixs.drop_last()) + instruction_cases(p, ixs.last())
    }
}

/// The cases of all programs, in order.
pub open spec fn all_cases(ps: Seq<ProgramView>) -> Seq<EdgeCaseView>
    decreases ps.len(),
{
    if ps.len() == 0 {
        Seq::empty()
    } else {
        all_cases(ps.drop_last()) + program_cases(ps.last(), ps.last().instructions)
    }
}

/// The number of derived accounts among `accts`.
pub open spec fn derived_count(accts: Seq<AccountView>) -> nat
    decreases accts.len(),
{
    if accts.len() == 0 {
        0
    } else {
        derived_count(accts.drop_last()) + if accts.last().seeds.len() > 0 {
            1nat
        } else {
            0nat
        }
    }
}

fn make_case(
    p: &ProgramSpec,
    ix: &InstructionSpec,
    kind: &str,
    mutation: Mutation,
    expectation: Expectation,
) -> (r: EdgeCase)
    ensures
        r@ == case_of(p@, ix@, kind@, mutation@, expectation),
{
    let mut id = p.idl_file.clone();
    id.append("_");
    id.append(ix.name.as_str());
    id.append("_");
    id.append(kind);
    EdgeCase {
        id,
        idl_file: p.idl_file.clone(),
        program_id: p.program_id,
        instruction: ix.clone(),
        mutation,
        expectation,
    }
}

fn push_instruction_cases(cases: &mut Vec<EdgeCase>, p: &ProgramSpec, ix: &InstructionSpec)
    ensures
        final(cases)@.map_values(|c: EdgeCase| c@) == old(cases)@.map_values(|c: EdgeCase| c@)
            + instruction_cases(p@, ix@),
{
    let ghost start = old(cases)@.map_values(|c: EdgeCase| c@);
    cases.push(make_case(p, ix, "base", Mutation::Baseline, Expectation::Any));
    cases.push(make_case(p, ix, "wrong_program", Mutation::WrongProgramId, Expectation::MustFail));
    cases.push(make_case(p, ix, "truncate_data", Mutation::TruncateData, Expectation::MustFail));
    assert(cases@.map_values(|c: EdgeCase| c@) =~= start + seq![
        case_of(p@, ix@, "base"@, MutationView::Baseline, Expectation::Any),
        case_of(p@, ix@, "wrong_program"@, MutationView::WrongProgramId, Expectation::MustFail),
        case_of(p@, ix@, "truncate_data"@, MutationView::TruncateData, Expectation::MustFail),
    ]);
    let ghost head = cases@.map_values(|c: EdgeCase| c@);
    let mut k: usize = 0;
    while k < ix.accounts.len()
        invariant
            0 <= k <= ix.accounts.len(),
            cases@.map_values(|c: EdgeCase| c@) == head + pda_cases(
                p@,
                ix@,
                ix@.accounts.take(k as int),
            ),
        decreases ix.accounts.len() - k,
    {
        let acc = &ix.accounts[k];
        assert(ix@.accounts.take(k as int + 1).drop_last() =~= ix@.accounts.take(k as int));
        assert(ix@.accounts.take(k as int + 1).last() == acc@);
        if acc.pda_seeds.len() > 0 {
            let mut kind = String::from_str("wrong_pda_");
            kind.append(acc.name.as_str());
            let m = Mutation::WrongPda { account: acc.name.clone() };
            let c = make_case(p, ix, kind.as_str(), m, Expectation::MustFail);
            let ghost pre = cases@;
            cases.push(c);
            assert(cases@.map_values(|c: EdgeCase| c@) =~= pre.map_values(|c: EdgeCase| c@).push(
                c@,
            ));
        }
        assert(cases@.map_values(|c: EdgeCase| c@) =~= head + pda_cases(
            p@,
            ix@,
            ix@.accounts.take(k as int + 1),
        ));
        k = k + 1;
    }
    assert(ix@.accounts.take(ix.accounts.len() as int) =~= ix@.accounts);
    assert(cases@.map_values(|c: EdgeCase| c@) =~= start + instruction_cases(p@, ix@));
}

/// The full case matrix of `programs`: for each instruction of each program, in
/// order, a baseline, a wrong-program and a truncated-data case, then a
/// wrong-derived-address case for each derived account.
pub fn generate_edge_cases(programs: &[ProgramSpec]) -> (r: Vec<EdgeCase>)
    ensures
        r@.map_values(|c: EdgeCase| c@) == all_cases(programs@.map_values(|p: ProgramSpec| p@)),
{
    let ghost ps = programs@.map_values(|p: ProgramSpec| p@);
    let mut cases: Vec<EdgeCase> = Vec::new();
    let mut i: usize = 0;
    while i < programs.len()
        invariant
            0 <= i <= programs@.len(),
            ps == programs@.map_values(|p: ProgramSpec| p@),
            cases@.map_values(|c: EdgeCase| c@) == all_cases(ps.take(i as int)),
        decreases programs.len() - i,
    {
        let p = &programs[i];
        let ghost before = cases@.map_values(|c: EdgeCase| c@);
        let mut j: usize = 0;
        while j < p.instructions.len()
            invariant
                0 <= j <= p.instructions@.len(),
                cases@.map_values(|c: EdgeCase| c@) == before + program_cases(
                    p@,
                    p@.instructions.take(j as int),
                ),
            decreases p.instructions.len() - j,
        {
            push_instruction_cases(&mut cases, p, &p.instructions[j]);
            assert(p@.instructions.take(j as int + 1).drop_last() =~= p@.instructions.take(
                j as int,
            ));
            assert(cases@.map_values(|c: EdgeCase| c@) =~= before + program_cases(
                p@,
                p@.instructions.take(j as int + 1),
            ));
            j = j + 1;
        }
        assert(p@.instructions.take(j as int) =~= p@.instructions);
        assert(ps.take(i as int + 1).drop_last() =~= ps.take(i as int));
        assert(cases@.map_values(|c: EdgeCase| c@) =~= all_cases(ps.take(i as int + 1)));
        i = i + 1;
    }
    assert(ps.take(i as int) =~= ps);
    cases
}

/// The identities of `cases`, in order.
pub open spec fn case_ids(cases: Seq<EdgeCaseView>) -> Seq<Seq<char>> {
    cases.map_values(|c: EdgeCaseView| c.id)
}

/// Generation is deterministic: the same programs give the same cases, with the
/// same identities in the same order.
pub proof fn lemma_generation_deterministic(ps1: Seq<ProgramView>, ps2: Seq<ProgramView>)
    requires
        ps1 == ps2,
    ensures
        all_cases(ps1) == all_cases(ps2),
        case_ids(all_cases(ps1)) == case_ids(all_cases(ps2)),
{
}

proof fn lemma_pda_cases_len(p: ProgramView, ix: InstructionView, accts: Seq<AccountView>)
    ensures
        pda_cases(p, ix, accts).len() == derived_count(accts),
        forall|k: int|
            0 <= k < pda_cases(p, ix, accts).len() ==> (#[trigger] pda_cases(p, ix, accts)[k]).mutation
                is WrongPda && pda_cases(p, ix, accts)[k].expectation == Expectation::MustFail,
    decreases accts.len(),
{
    if accts.len() > 0 {
        lemma_pda_cases_len(p, ix, accts.drop_last());
    }
}

/// Completeness: an instruction with k derived accounts gets exactly k + 3
/// cases, namely a baseline, a wrong-program and a truncated-data case, then k
/// wrong-derived-address cases, all but the baseline expected to fail.
pub proof fn lemma_instruction_case_count(p: ProgramView, ix: InstructionView)
    ensures
        instruction_cases(p, ix).len() == derived_count(ix.accounts) + 3,
        instruction_cases(p, ix)[0].mutation == MutationView::Baseline,
        instruction_cases(p, ix)[0].expectation == Expectation::Any,
        instruction_cases(p, ix)[1].mutation == MutationView::WrongProgramId,
        instruction_cases(p, ix)[2].mutation == MutationView::TruncateData,
        forall|k: int|
            1 <= k < instruction_cases(p, ix).len() ==> (#[trigger] instruction_cases(p, ix)[k]).expectation
                == Expectation::MustFail,
        forall|k: int|
            3 <= k < instruction_cases(p, ix).len() ==> (#[trigger] instruction_cases(p, ix)[k]).mutation
                is WrongPda,
{
    lemma_pda_cases_len(p, ix, ix.accounts);
    let pc = pda_cases(p, ix, ix.accounts);
    assert forall|k: int| 3 <= k < instruction_cases(p, ix).len() implies (#[trigger] instruction_cases(
        p,
        ix,
    )[k]).mutation is WrongPda && instruction_cases(p, ix)[k].expectation
        == Expectation::MustFail by {
        assert(instruction_cases(p, ix)[k] == pc[k - 3]);
    }
}

} // verus!
