use anchor_suite::cases::generate_edge_cases;
use anchor_suite::encode::{encode_arg_zero, encode_instruction_data};
use anchor_suite::execute::{build_invocation, draw_addresses, judge_case};
use anchor_suite::model::{
    AccountSpec, Address, ArgSpec, ArgType, EdgeCase, Expectation, InstructionSpec, Mutation,
    PrimType, ProgramSpec, SeedSpec, TypeError,
};
use anchor_suite::resolve::build_accounts;
use std::str::FromStr;

fn account(name: &str, signer: bool, writable: bool, seeds: Vec<SeedSpec>) -> AccountSpec {
    AccountSpec { name: name.to_string(), signer, writable, pda_seeds: seeds }
}

fn instruction(accounts: Vec<AccountSpec>, args: Vec<ArgSpec>) -> InstructionSpec {
    InstructionSpec {
        name: "deposit".to_string(),
        discriminator: vec![1, 2, 3, 4, 5, 6, 7, 8],
        accounts,
        args,
    }
}

fn vault_accounts() -> Vec<AccountSpec> {
    vec![
        account(
            "vault",
            false,
            true,
            vec![SeedSpec::Const(b"vault".to_vec()), SeedSpec::Account("user".to_string())],
        ),
        account("user", true, true, vec![]),
    ]
}

fn program_id() -> Address {
    let pk =
        anchor_lang::prelude::Pubkey::from_str("Fg6PaFpoGXkYsidMpWTK6W2BeZ7FEfcYkg476zPFsLnS")
            .unwrap();
    Address { bytes: pk.to_bytes() }
}

fn cases_of(ix: InstructionSpec) -> Vec<EdgeCase> {
    generate_edge_cases(&[ProgramSpec {
        idl_file: "test_vault.json".to_string(),
        program_id: program_id(),
        deploy_so: "test_vault.so".to_string(),
        instructions: vec![ix],
    }])
}

fn addr(b: u8) -> Address {
    Address { bytes: [b; 32] }
}

fn pool(n: usize, base: u8) -> Vec<Address> {
    (0..n).map(|i| addr(base + i as u8)).collect()
}

fn expected_vault(user: &Address) -> [u8; 32] {
    let program = anchor_lang::prelude::Pubkey::new_from_array(program_id().bytes);
    let (pda, _) = anchor_lang::prelude::Pubkey::find_program_address(
        &[b"vault".as_ref(), user.bytes.as_ref()],
        &program,
    );
    pda.to_bytes()
}

#[test]
fn primitive_widths() {
    let widths = [
        (PrimType::Bool, 1),
        (PrimType::U8, 1),
        (PrimType::I8, 1),
        (PrimType::U16, 2),
        (PrimType::I16, 2),
        (PrimType::U32, 4),
        (PrimType::I32, 4),
        (PrimType::U64, 8),
        (PrimType::I64, 8),
        (PrimType::U128, 16),
        (PrimType::I128, 16),
        (PrimType::Pubkey, 32),
    ];
    for (p, w) in widths {
        assert_eq!(encode_arg_zero(&ArgType::Prim(p)).unwrap(), vec![0u8; w]);
    }
}

#[test]
fn array_width_is_length_times_element_width() {
    let t = ArgType::Array(Box::new(ArgType::Prim(PrimType::U16)), 3);
    assert_eq!(encode_arg_zero(&t).unwrap(), vec![0u8; 6]);
    let nested = ArgType::Array(Box::new(ArgType::Array(Box::new(ArgType::Prim(PrimType::U64)), 2)), 4);
    assert_eq!(encode_arg_zero(&nested).unwrap().len(), 64);
    let empty = ArgType::Array(Box::new(ArgType::Prim(PrimType::Pubkey)), 0);
    assert!(encode_arg_zero(&empty).unwrap().is_empty());
}

#[test]
fn unsupported_types_fail_with_reason() {
    assert_eq!(
        encode_arg_zero(&ArgType::Unsupported(TypeError::Complex)).unwrap_err(),
        TypeError::Complex
    );
    let t = ArgType::Array(Box::new(ArgType::Unsupported(TypeError::UnknownPrimitive)), 4);
    assert_eq!(encode_arg_zero(&t).unwrap_err(), TypeError::UnknownPrimitive);
    let huge = ArgType::Array(Box::new(ArgType::Array(Box::new(ArgType::Prim(PrimType::U128)), u64::MAX)), 2);
    assert_eq!(encode_arg_zero(&huge).unwrap_err(), TypeError::TooLarge);
    assert_eq!(TypeError::UnknownPrimitive.message(), "primitive not supported");
    assert_eq!(TypeError::InvalidArray.message(), "invalid array type");
    assert_eq!(TypeError::InvalidArrayLen.message(), "invalid array len");
    assert_eq!(TypeError::Complex.message(), "complex arg type not supported");
}

#[test]
fn call_data_is_discriminator_then_zero_args() {
    let ix = instruction(
        vec![],
        vec![
            ArgSpec { name: "amount".to_string(), ty: ArgType::Prim(PrimType::U64) },
            ArgSpec { name: "flag".to_string(), ty: ArgType::Prim(PrimType::Bool) },
        ],
    );
    let mut expected = vec![1, 2, 3, 4, 5, 6, 7, 8];
    expected.extend(vec![0u8; 9]);
    assert_eq!(encode_instruction_data(&ix).unwrap(), expected);
}

#[test]
fn call_data_names_the_unsupported_argument() {
    let ix = instruction(
        vec![],
        vec![
            ArgSpec { name: "amount".to_string(), ty: ArgType::Prim(PrimType::U64) },
            ArgSpec { name: "memo".to_string(), ty: ArgType::Unsupported(TypeError::Complex) },
        ],
    );
    let err = encode_instruction_data(&ix).unwrap_err();
    assert_eq!(err.arg, "memo");
    assert_eq!(err.reason, TypeError::Complex);
    assert_eq!(err.message(), "arg memo type not supported: complex arg type not supported");
}

#[test]
fn truncating_a_bare_discriminator_leaves_seven_bytes() {
    let cases = cases_of(instruction(vec![], vec![]));
    let inv = build_invocation(&cases[2], addr(1), &vec![], &vec![], addr(2), addr(3)).unwrap();
    assert_eq!(inv.data, vec![1, 2, 3, 4, 5, 6, 7]);
    let base = build_invocation(&cases[0], addr(1), &vec![], &vec![], addr(2), addr(3)).unwrap();
    assert_eq!(base.data, vec![1, 2, 3, 4, 5, 6, 7, 8]);
}

#[test]
fn wrong_program_routes_elsewhere_but_derives_with_own_program() {
    let cases = cases_of(instruction(vault_accounts(), vec![]));
    let inv = build_invocation(&cases[1], addr(1), &pool(2, 10), &pool(2, 20), addr(2), addr(3))
        .unwrap();
    assert_eq!(inv.program_id.bytes, [3; 32]);
    assert_eq!(inv.accounts[0].address.bytes, expected_vault(&addr(1)));
    let base = build_invocation(&cases[0], addr(1), &pool(2, 10), &pool(2, 20), addr(2), addr(3))
        .unwrap();
    assert_eq!(base.program_id.bytes, program_id().bytes);
}

#[test]
fn unsupported_argument_fails_the_invocation() {
    let ix = instruction(
        vec![],
        vec![ArgSpec { name: "x".to_string(), ty: ArgType::Unsupported(TypeError::UnknownPrimitive) }],
    );
    let cases = cases_of(ix);
    let err = build_invocation(&cases[0], addr(1), &vec![], &vec![], addr(2), addr(3)).unwrap_err();
    assert_eq!(err.message(), "arg x type not supported: primitive not supported");
}

#[test]
fn single_signer_is_the_payer() {
    let cases = cases_of(instruction(vault_accounts(), vec![]));
    let r = build_accounts(&cases[0], addr(1), &pool(2, 10), &pool(2, 20), addr(2));
    assert_eq!(r.metas[1].address.bytes, [1; 32]);
    assert!(r.metas[1].signer && r.metas[1].writable);
    assert!(r.extra_signers.is_empty());
    assert_eq!(r.metas[0].address.bytes, expected_vault(&addr(1)));
    assert!(!r.metas[0].signer && r.metas[0].writable);
}

#[test]
fn second_signer_gets_its_own_identity() {
    let accounts = vec![
        account("authority", true, false, vec![]),
        account("payer2", true, true, vec![]),
        account("data", false, false, vec![]),
    ];
    let cases = cases_of(instruction(accounts, vec![]));
    let r = build_accounts(&cases[0], addr(1), &pool(3, 10), &pool(3, 20), addr(2));
    assert_eq!(r.metas[0].address.bytes, [1; 32]);
    assert_eq!(r.metas[1].address.bytes, [11; 32]);
    assert_eq!(r.metas[2].address.bytes, [22; 32]);
    assert_eq!(r.extra_signers, vec![1]);
    assert!(!r.metas[0].writable && r.metas[1].writable);
}

#[test]
fn derived_address_is_stable_across_resolutions() {
    let cases = cases_of(instruction(vault_accounts(), vec![]));
    let a = build_accounts(&cases[0], addr(1), &pool(2, 10), &pool(2, 20), addr(2));
    let b = build_accounts(&cases[0], addr(1), &pool(2, 40), &pool(2, 60), addr(5));
    assert_eq!(a.metas[0].address.bytes, b.metas[0].address.bytes);
    let other = build_accounts(&cases[0], addr(9), &pool(2, 10), &pool(2, 20), addr(2));
    assert_ne!(a.metas[0].address.bytes, other.metas[0].address.bytes);
}

#[test]
fn wrong_pda_rebinds_the_derived_account() {
    let cases = cases_of(instruction(vault_accounts(), vec![]));
    assert!(matches!(cases[3].mutation, Mutation::WrongPda { .. }));
    let r = build_accounts(&cases[3], addr(1), &pool(2, 10), &pool(2, 20), addr(2));
    assert_eq!(r.metas[0].address.bytes, [2; 32]);
    assert_eq!(r.metas[1].address.bytes, [1; 32]);
}

#[test]
fn unresolvable_seed_keeps_the_direct_binding() {
    let accounts = vec![
        account("vault", false, true, vec![SeedSpec::Account("missing".to_string())]),
        account("user", true, true, vec![]),
    ];
    let cases = cases_of(instruction(accounts, vec![]));
    let r = build_accounts(&cases[0], addr(1), &pool(2, 10), &pool(2, 20), addr(2));
    assert_eq!(r.metas[0].address.bytes, [20; 32]);
}

#[test]
fn oversized_seed_keeps_the_direct_binding() {
    let accounts = vec![account("vault", false, true, vec![SeedSpec::Const(vec![1; 33])])];
    let cases = cases_of(instruction(accounts, vec![]));
    let r = build_accounts(&cases[0], addr(1), &pool(1, 10), &pool(1, 20), addr(2));
    assert_eq!(r.metas[0].address.bytes, [20; 32]);
}

#[test]
fn drawn_addresses_differ() {
    let a = draw_addresses(3);
    assert_eq!(a.len(), 3);
    assert_ne!(a[0].bytes, a[1].bytes);
    assert_ne!(a[1].bytes, a[2].bytes);
}

#[test]
fn judging_follows_the_expectation() {
    let cases = cases_of(instruction(vault_accounts(), vec![]));
    let base = judge_case(&cases[0], Ok(()));
    assert!(base.passed && base.actual_success);
    assert_eq!(base.expected_success, None);
    assert_eq!(base.mutation, "none");
    assert_eq!(base.id, "test_vault.json_deposit_base");
    assert_eq!(base.instruction, "deposit");
    let rejected = judge_case(&cases[1], Err("transaction failed".to_string()));
    assert!(rejected.passed && !rejected.actual_success);
    assert_eq!(rejected.expected_success, Some(false));
    assert_eq!(rejected.error.as_deref(), Some("transaction failed"));
    assert_eq!(rejected.mutation, "wrong_program_id");
    let accepted = judge_case(&cases[2], Ok(()));
    assert!(!accepted.passed);
    assert_eq!(accepted.error, None);
    assert_eq!(accepted.mutation, "truncate_data");
    let pda = judge_case(&cases[3], Err("x".to_string()));
    assert_eq!(pda.mutation, "wrong_pda:vault");
    assert_eq!(cases[3].expectation, Expectation::MustFail);
}
