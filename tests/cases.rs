use anchor_suite::cases::generate_edge_cases;
use anchor_suite::model::{
    AccountSpec, Address, ArgSpec, ArgType, EdgeCase, Expectation, InstructionSpec, Mutation,
    PrimType, ProgramSpec, SeedSpec,
};

fn account(name: &str, signer: bool, writable: bool, seeds: Vec<SeedSpec>) -> AccountSpec {
    AccountSpec { name: name.to_string(), signer, writable, pda_seeds: seeds }
}

fn deposit() -> InstructionSpec {
    InstructionSpec {
        name: "deposit".to_string(),
        discriminator: vec![242, 35, 198, 137, 82, 225, 242, 182],
        accounts: vec![
            account(
                "vault",
                false,
                true,
                vec![SeedSpec::Const(b"vault".to_vec()), SeedSpec::Account("user".to_string())],
            ),
            account("user", true, true, vec![]),
        ],
        args: vec![ArgSpec { name: "amount".to_string(), ty: ArgType::Prim(PrimType::U64) }],
    }
}

fn program(file: &str, instructions: Vec<InstructionSpec>) -> ProgramSpec {
    ProgramSpec {
        idl_file: file.to_string(),
        program_id: Address { bytes: [7; 32] },
        deploy_so: "test_vault.so".to_string(),
        instructions,
    }
}

fn ids(cases: &[EdgeCase]) -> Vec<String> {
    cases.iter().map(|c| c.id.clone()).collect()
}

#[test]
fn deposit_yields_four_cases() {
    let cases = generate_edge_cases(&[program("test_vault.json", vec![deposit()])]);
    assert_eq!(
        ids(&cases),
        vec![
            "test_vault.json_deposit_base",
            "test_vault.json_deposit_wrong_program",
            "test_vault.json_deposit_truncate_data",
            "test_vault.json_deposit_wrong_pda_vault",
        ]
    );
    assert!(matches!(cases[0].mutation, Mutation::Baseline));
    assert_eq!(cases[0].expectation, Expectation::Any);
    assert!(matches!(cases[1].mutation, Mutation::WrongProgramId));
    assert!(matches!(cases[2].mutation, Mutation::TruncateData));
    match &cases[3].mutation {
        Mutation::WrongPda { account } => assert_eq!(account, "vault"),
        other => panic!("unexpected mutation {:?}", other),
    }
    for c in &cases[1..] {
        assert_eq!(c.expectation, Expectation::MustFail);
    }
    for c in &cases {
        assert_eq!(c.idl_file, "test_vault.json");
        assert_eq!(c.program_id.bytes, [7; 32]);
        assert_eq!(c.instruction.name, "deposit");
        assert_eq!(c.instruction.accounts.len(), 2);
    }
}

#[test]
fn generation_is_deterministic() {
    let programs = [
        program("a.json", vec![deposit(), deposit()]),
        program("b.json", vec![deposit()]),
    ];
    let first = generate_edge_cases(&programs);
    let second = generate_edge_cases(&programs);
    assert_eq!(ids(&first), ids(&second));
    assert_eq!(first.len(), 12);
    assert_eq!(first[8].id, "b.json_deposit_base");
}

#[test]
fn each_derived_account_adds_one_case() {
    let mut ix = deposit();
    ix.accounts.push(account("config", false, false, vec![SeedSpec::Const(b"cfg".to_vec())]));
    ix.accounts.push(account("other", false, false, vec![]));
    let cases = generate_edge_cases(&[program("p.json", vec![ix])]);
    assert_eq!(cases.len(), 2 + 3);
    assert_eq!(cases[3].id, "p.json_deposit_wrong_pda_vault");
    assert_eq!(cases[4].id, "p.json_deposit_wrong_pda_config");
}

#[test]
fn instruction_without_accounts_yields_three_cases() {
    let mut ix = deposit();
    ix.accounts.clear();
    let cases = generate_edge_cases(&[program("p.json", vec![ix])]);
    assert_eq!(cases.len(), 3);
}

#[test]
fn no_programs_yield_no_cases() {
    assert!(generate_edge_cases(&[]).is_empty());
}
