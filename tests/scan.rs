use anchor_suite::json::JsonValue;
use anchor_suite::scan::{collect_pdas, PdaInfo};
use anchor_suite::specs::{load_program_specs, IdlFile};

fn s(t: &str) -> JsonValue {
    JsonValue::Str(t.to_string())
}

fn obj(entries: Vec<(&str, JsonValue)>) -> JsonValue {
    JsonValue::Object(entries.into_iter().map(|(k, v)| (k.to_string(), v)).collect())
}

fn derived(name: &str) -> JsonValue {
    obj(vec![
        ("name", s(name)),
        ("pda", obj(vec![("seeds", JsonValue::Array(vec![]))])),
    ])
}

fn plain(name: &str) -> JsonValue {
    obj(vec![("name", s(name))])
}

fn instruction(name: &str, accounts: Vec<JsonValue>) -> JsonValue {
    obj(vec![
        ("name", s(name)),
        (
            "discriminator",
            JsonValue::Array((1..=8).map(JsonValue::Number).collect()),
        ),
        ("accounts", JsonValue::Array(accounts)),
    ])
}

fn idl(address: Option<&str>, instructions: Vec<JsonValue>) -> JsonValue {
    let mut entries = vec![("instructions", JsonValue::Array(instructions))];
    if let Some(a) = address {
        entries.push(("address", s(a)));
    }
    obj(entries)
}

#[test]
fn lists_each_derived_account_once() {
    let doc = idl(
        Some("Prog1"),
        vec![
            instruction("initialize", vec![derived("vault"), plain("user")]),
            instruction("deposit", vec![derived("vault"), derived("config")]),
        ],
    );
    let mut seen: Vec<String> = Vec::new();
    let mut found: Vec<PdaInfo> = Vec::new();
    collect_pdas(&doc, &mut seen, &mut found);
    assert_eq!(seen, vec!["Prog1:vault", "Prog1:config"]);
    assert_eq!(found.len(), 2);
    assert_eq!(found[0].program_id, "Prog1");
    assert_eq!(found[0].account_name, "vault");
    assert_eq!((found[0].instruction, found[0].account), (0, 0));
    assert_eq!((found[1].instruction, found[1].account), (1, 1));

    let other = idl(None, vec![instruction("x", vec![derived("vault"), obj(vec![("pda", obj(vec![("seeds", JsonValue::Array(vec![]))]))])])]);
    collect_pdas(&other, &mut seen, &mut found);
    assert_eq!(found.len(), 4);
    assert_eq!(found[2].program_id, "<unknown_program>");
    assert_eq!(found[3].account_name, "<unknown_account>");
    collect_pdas(&doc, &mut seen, &mut found);
    assert_eq!(found.len(), 4);
}

#[test]
fn loads_programs_in_order_and_skips_empty_ones() {
    let files = vec![
        IdlFile {
            file_name: "a.json".to_string(),
            stem: "a".to_string(),
            document: idl(Some("11111111111111111111111111111111"), vec![instruction("go", vec![])]),
        },
        IdlFile {
            file_name: "b.json".to_string(),
            stem: "b".to_string(),
            document: idl(Some("11111111111111111111111111111111"), vec![]),
        },
        IdlFile {
            file_name: "c.json".to_string(),
            stem: "c".to_string(),
            document: idl(None, vec![instruction("go", vec![])]),
        },
    ];
    let entries: Vec<String> = vec!["a.so".to_string(), "b.so".to_string()];
    let programs = load_program_specs(&files, "deploy", &entries).unwrap();
    assert_eq!(programs.len(), 1);
    assert_eq!(programs[0].idl_file, "a.json");
    assert_eq!(programs[0].deploy_so, "a.so");
    assert_eq!(programs[0].program_id.bytes, [0; 32]);
    assert_eq!(programs[0].instructions[0].name, "go");
}

#[test]
fn an_unresolvable_artifact_fails_the_load() {
    let files = vec![IdlFile {
        file_name: "z.json".to_string(),
        stem: "z".to_string(),
        document: idl(Some("11111111111111111111111111111111"), vec![instruction("go", vec![])]),
    }];
    let entries: Vec<String> = vec!["a.so".to_string(), "b.so".to_string()];
    let err = load_program_specs(&files, "deploy", &entries).unwrap_err();
    assert_eq!(err.message(), "Could not resolve matching .so in deploy for idl stem=z meta_name=");
}
