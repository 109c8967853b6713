use anchor_suite::json::JsonValue;
use anchor_suite::model::{ArgType, CheckResult, ExecutedCase, PrimType, SeedSpec, TypeError};
use anchor_suite::report::{directory_check, run_failed, summarize};
use anchor_suite::specs::{load_program_spec, parse_arg_type, parse_instruction, resolve_so_file};
use std::str::FromStr;

fn s(t: &str) -> JsonValue {
    JsonValue::Str(t.to_string())
}

fn obj(entries: Vec<(&str, JsonValue)>) -> JsonValue {
    JsonValue::Object(entries.into_iter().map(|(k, v)| (k.to_string(), v)).collect())
}

fn nums(v: &[u64]) -> JsonValue {
    JsonValue::Array(v.iter().map(|n| JsonValue::Number(*n)).collect())
}

fn deposit_idl() -> JsonValue {
    obj(vec![
        ("name", s("deposit")),
        ("discriminator", nums(&[242, 35, 198, 137, 82, 225, 242, 182])),
        (
            "accounts",
            JsonValue::Array(vec![
                obj(vec![
                    ("name", s("vault")),
                    ("writable", JsonValue::Bool(true)),
                    (
                        "pda",
                        obj(vec![(
                            "seeds",
                            JsonValue::Array(vec![
                                obj(vec![("kind", s("const")), ("value", nums(&[118, 97, 117, 108, 116]))]),
                                obj(vec![("kind", s("account")), ("path", s("user"))]),
                                obj(vec![("kind", s("arg")), ("path", s("amount"))]),
                            ]),
                        )]),
                    ),
                ]),
                obj(vec![
                    ("name", s("user")),
                    ("writable", JsonValue::Bool(true)),
                    ("signer", JsonValue::Bool(true)),
                ]),
                obj(vec![("address", s("11111111111111111111111111111111"))]),
            ]),
        ),
        ("args", JsonValue::Array(vec![obj(vec![("name", s("amount")), ("type", s("u64"))])])),
    ])
}

fn case_record(passed: bool) -> ExecutedCase {
    ExecutedCase {
        id: "c".to_string(),
        idl_file: "f.json".to_string(),
        instruction: "i".to_string(),
        mutation: "none".to_string(),
        expected_success: None,
        actual_success: true,
        passed,
        error: None,
    }
}

#[test]
fn parses_an_instruction() {
    let ix = parse_instruction(&deposit_idl()).unwrap();
    assert_eq!(ix.name, "deposit");
    assert_eq!(ix.discriminator, vec![242, 35, 198, 137, 82, 225, 242, 182]);
    assert_eq!(ix.accounts.len(), 3);
    assert_eq!(ix.accounts[0].name, "vault");
    assert!(ix.accounts[0].writable && !ix.accounts[0].signer);
    assert_eq!(ix.accounts[0].pda_seeds.len(), 2);
    match &ix.accounts[0].pda_seeds[0] {
        SeedSpec::Const(b) => assert_eq!(b, b"vault"),
        other => panic!("unexpected seed {:?}", other),
    }
    match &ix.accounts[0].pda_seeds[1] {
        SeedSpec::Account(p) => assert_eq!(p, "user"),
        other => panic!("unexpected seed {:?}", other),
    }
    assert!(ix.accounts[1].signer);
    assert_eq!(ix.accounts[2].name, "unknown");
    assert!(!ix.accounts[2].signer && !ix.accounts[2].writable);
    assert_eq!(ix.args.len(), 1);
    assert_eq!(ix.args[0].name, "amount");
    assert!(matches!(ix.args[0].ty, ArgType::Prim(PrimType::U64)));
}

#[test]
fn rejects_a_bad_discriminator() {
    let short = obj(vec![("name", s("x")), ("discriminator", nums(&[1, 2, 3]))]);
    assert!(parse_instruction(&short).is_none());
    let missing = obj(vec![("name", s("x"))]);
    assert!(parse_instruction(&missing).is_none());
    let unnamed = obj(vec![("discriminator", nums(&[1, 2, 3, 4, 5, 6, 7, 8]))]);
    assert!(parse_instruction(&unnamed).is_none());
    let truncated = obj(vec![("name", s("x")), ("discriminator", nums(&[1, 2, 3, 4, 5, 6, 7, 264]))]);
    assert_eq!(parse_instruction(&truncated).unwrap().discriminator, vec![1, 2, 3, 4, 5, 6, 7, 8]);
}

#[test]
fn decodes_type_descriptors() {
    assert!(matches!(parse_arg_type(&s("pubkey")), ArgType::Prim(PrimType::Pubkey)));
    assert!(matches!(parse_arg_type(&s("f32")), ArgType::Unsupported(TypeError::UnknownPrimitive)));
    assert!(matches!(parse_arg_type(&JsonValue::Null), ArgType::Unsupported(TypeError::Complex)));
    let arr = obj(vec![("array", JsonValue::Array(vec![s("u8"), JsonValue::Number(32)]))]);
    match parse_arg_type(&arr) {
        ArgType::Array(inner, 32) => assert!(matches!(*inner, ArgType::Prim(PrimType::U8))),
        other => panic!("unexpected type {:?}", other),
    }
    let bad = obj(vec![("array", JsonValue::Array(vec![s("u8")]))]);
    assert!(matches!(parse_arg_type(&bad), ArgType::Unsupported(TypeError::InvalidArray)));
    let bad_len = obj(vec![("array", JsonValue::Array(vec![s("u8"), JsonValue::OtherNumber]))]);
    assert!(matches!(parse_arg_type(&bad_len), ArgType::Unsupported(TypeError::InvalidArrayLen)));
    let vec_ty = obj(vec![("vec", s("u8"))]);
    assert!(matches!(parse_arg_type(&vec_ty), ArgType::Unsupported(TypeError::Complex)));
}

#[test]
fn resolves_artifacts() {
    let entries: Vec<String> =
        vec!["my_prog.so".to_string(), "other.so".to_string(), "notes.txt".to_string()];
    assert_eq!(resolve_so_file("deploy", &entries, "my-prog", "x").unwrap(), "my_prog.so");
    assert_eq!(resolve_so_file("deploy", &entries, "nope", "other").unwrap(), "other.so");
    let err = resolve_so_file("deploy", &entries, "nope", "none").unwrap_err();
    assert_eq!(err.message(), "Could not resolve matching .so in deploy for idl stem=nope meta_name=none");
    let single: Vec<String> = vec!["only.so".to_string(), ".so".to_string(), "a.json".to_string()];
    assert_eq!(resolve_so_file("d", &single, "x", "y").unwrap(), "only.so");
}

#[test]
fn loads_a_program() {
    let address = "Fg6PaFpoGXkYsidMpWTK6W2BeZ7FEfcYkg476zPFsLnS";
    let idl = obj(vec![
        ("address", s(address)),
        ("metadata", obj(vec![("name", s("test-vault"))])),
        ("instructions", JsonValue::Array(vec![deposit_idl(), obj(vec![("name", s("bad"))])])),
    ]);
    let entries: Vec<String> = vec!["test_vault.so".to_string(), "x.so".to_string()];
    let p = load_program_spec("idl.json", "idl", &idl, "deploy", &entries).unwrap().unwrap();
    assert_eq!(p.idl_file, "idl.json");
    assert_eq!(p.deploy_so, "test_vault.so");
    assert_eq!(p.instructions.len(), 1);
    let expected = anchor_lang::prelude::Pubkey::from_str(address).unwrap();
    assert_eq!(p.program_id.bytes, expected.to_bytes());
}

#[test]
fn skips_descriptions_without_program_or_instructions() {
    let entries: Vec<String> = vec!["a.so".to_string()];
    let no_address = obj(vec![("instructions", JsonValue::Array(vec![deposit_idl()]))]);
    assert!(load_program_spec("a.json", "a", &no_address, "d", &entries).unwrap().is_none());
    let bad_address = obj(vec![("address", s("not-base58!")), ("instructions", JsonValue::Array(vec![deposit_idl()]))]);
    assert!(load_program_spec("a.json", "a", &bad_address, "d", &entries).unwrap().is_none());
    let meta_address = obj(vec![
        ("metadata", obj(vec![("address", s("11111111111111111111111111111111"))])),
        ("instructions", JsonValue::Array(vec![])),
    ]);
    assert!(load_program_spec("a.json", "a", &meta_address, "d", &entries).unwrap().is_none());
    let unresolved = obj(vec![("address", s("11111111111111111111111111111111"))]);
    let two: Vec<String> = vec!["b.so".to_string(), "c.so".to_string()];
    assert!(load_program_spec("a.json", "a", &unresolved, "d", &two).is_err());
}

#[test]
fn reports_counts_and_verdict() {
    let checks = vec![
        CheckResult::pass("idl_dir_exists", "target/idl".to_string()),
        directory_check("deploy_dir_exists", "target/deploy".to_string(), false),
    ];
    assert!(checks[0].ok && checks[0].hint.is_none());
    assert!(!checks[1].ok);
    assert_eq!(checks[1].hint.as_deref(), Some("Run `anchor build` first"));
    let executed = vec![case_record(true), case_record(false), case_record(true)];
    let s = summarize(&checks, 5, &executed);
    assert_eq!(s.checks_failed, 1);
    assert_eq!(s.generated_edge_cases, 5);
    assert_eq!(s.executed_cases, 3);
    assert_eq!(s.case_passed, 2);
    assert_eq!(s.case_failed, 1);
    assert!(run_failed(&checks, &[]));
    assert!(run_failed(&checks[..1], &executed));
    assert!(!run_failed(&checks[..1], &executed[..1]));
    let failed = CheckResult::fail("x", "d".to_string(), "h".to_string());
    assert_eq!(failed.hint.as_deref(), Some("h"));
    assert_eq!(failed.name, "x");
}
