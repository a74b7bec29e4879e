use scaffold::catalog::BuildError;
use scaffold::catalog::Catalog;
use scaffold::catalog::FileEntry;
use scaffold::catalog::NamingRule;
use scaffold::catalog::TemplateDescriptor;
use scaffold::catalog::VarSpec;
use scaffold::context::Binding;
use scaffold::errors::GenError;
use scaffold::validate::validate;

fn bv(s: &str) -> Vec<u8> {
    s.as_bytes().to_vec()
}

fn entry(path: &str, content: &str) -> FileEntry {
    FileEntry { rel_path: bv(path), content: bv(content), binary: false }
}

fn var(name: &str, required: bool, default: Option<&str>, rule: NamingRule) -> VarSpec {
    VarSpec { name: bv(name), required, default: default.map(bv), rule }
}

fn one_template(key: &str) -> TemplateDescriptor {
    TemplateDescriptor {
        key: bv(key),
        entries: vec![entry("README.md", "# {{title}}\n")],
        schema: vec![var("title", true, None, NamingRule::FreeText)],
    }
}

#[test]
fn catalog_resolves_known_key() {
    let c = Catalog::new(vec![one_template("go_http"), one_template("rust_actix")]).unwrap();
    let t = c.resolve(&bv("rust_actix")).unwrap();
    assert_eq!(t.key, bv("rust_actix"));
}

#[test]
fn catalog_unknown_key_is_not_found() {
    let c = Catalog::new(vec![one_template("go_http")]).unwrap();
    match c.resolve(&bv("cobol_cgi")) {
        Err(GenError::TemplateNotFound(k)) => assert_eq!(k, bv("cobol_cgi")),
        _ => panic!("expected TemplateNotFound"),
    }
}

#[test]
fn catalog_lists_keys_in_order() {
    let c = Catalog::new(vec![one_template("a"), one_template("b")]).unwrap();
    assert_eq!(c.list_keys(), vec![bv("a"), bv("b")]);
}

#[test]
fn catalog_rejects_duplicate_key() {
    match Catalog::new(vec![one_template("twice"), one_template("twice")]) {
        Err(BuildError::DuplicateKey(k)) => assert_eq!(k, bv("twice")),
        _ => panic!("expected DuplicateKey"),
    }
}

#[test]
fn catalog_rejects_empty_template() {
    let t = TemplateDescriptor { key: bv("hollow"), entries: vec![], schema: vec![] };
    match Catalog::new(vec![t]) {
        Err(BuildError::EmptyTemplate(k)) => assert_eq!(k, bv("hollow")),
        _ => panic!("expected EmptyTemplate"),
    }
}

#[test]
fn catalog_rejects_duplicate_path() {
    let t = TemplateDescriptor {
        key: bv("k"),
        entries: vec![entry("a.txt", "1"), entry("b.txt", "2"), entry("a.txt", "3")],
        schema: vec![],
    };
    match Catalog::new(vec![t]) {
        Err(BuildError::DuplicatePath { key, path }) => {
            assert_eq!(key, bv("k"));
            assert_eq!(path, bv("a.txt"));
        },
        _ => panic!("expected DuplicatePath"),
    }
}

#[test]
fn catalog_rejects_duplicate_variable() {
    let t = TemplateDescriptor {
        key: bv("k"),
        entries: vec![entry("a.txt", "1")],
        schema: vec![
            var("name", true, None, NamingRule::FreeText),
            var("name", false, None, NamingRule::FreeText),
        ],
    };
    match Catalog::new(vec![t]) {
        Err(BuildError::DuplicateVariable { key, name }) => {
            assert_eq!(key, bv("k"));
            assert_eq!(name, bv("name"));
        },
        _ => panic!("expected DuplicateVariable"),
    }
}

fn bind(pairs: &[(&str, &str)]) -> Vec<Binding> {
    pairs.iter().map(|(n, v)| Binding { name: bv(n), value: bv(v) }).collect()
}

#[test]
fn validate_applies_default() {
    let schema = vec![var("port", false, Some("8080"), NamingRule::FreeText)];
    let ctx = validate(&schema, &bind(&[])).unwrap();
    assert_eq!(ctx.pairs.len(), 1);
    assert_eq!(ctx.pairs[0].name, bv("port"));
    assert_eq!(ctx.pairs[0].value, bv("8080"));
}

#[test]
fn validate_supplied_value_wins_over_default() {
    let schema = vec![var("port", false, Some("8080"), NamingRule::FreeText)];
    let ctx = validate(&schema, &bind(&[("port", "9090")])).unwrap();
    assert_eq!(ctx.pairs[0].value, bv("9090"));
}

#[test]
fn validate_missing_required_variable() {
    let schema = vec![var("project_name", true, None, NamingRule::PackageName)];
    match validate(&schema, &bind(&[])) {
        Err(GenError::MissingRequiredVariable(n)) => assert_eq!(n, bv("project_name")),
        _ => panic!("expected MissingRequiredVariable"),
    }
}

#[test]
fn validate_optional_variable_without_value_is_skipped() {
    let schema = vec![var("extra", false, None, NamingRule::FreeText)];
    let ctx = validate(&schema, &bind(&[])).unwrap();
    assert_eq!(ctx.pairs.len(), 0);
}

#[test]
fn validate_package_name_rule() {
    let schema = vec![var("project_name", true, None, NamingRule::PackageName)];
    assert!(validate(&schema, &bind(&[("project_name", "my-service")])).is_ok());
    assert!(validate(&schema, &bind(&[("project_name", "my_service2")])).is_ok());
    for bad in ["My Service", "MyService", "2fast", "-lead", "", "has space"] {
        match validate(&schema, &bind(&[("project_name", bad)])) {
            Err(GenError::InvalidVariable(n)) => assert_eq!(n, bv("project_name")),
            _ => panic!("expected InvalidVariable for {:?}", bad),
        }
    }
}

#[test]
fn validate_identifier_rule() {
    let schema = vec![var("type_name", true, None, NamingRule::Identifier)];
    assert!(validate(&schema, &bind(&[("type_name", "MyService")])).is_ok());
    assert!(validate(&schema, &bind(&[("type_name", "a_b9")])).is_ok());
    for bad in ["9a", "has space", "", "with-dash"] {
        match validate(&schema, &bind(&[("type_name", bad)])) {
            Err(GenError::InvalidVariable(n)) => assert_eq!(n, bv("type_name")),
            _ => panic!("expected InvalidVariable for {:?}", bad),
        }
    }
}

#[test]
fn validate_display_name_allows_whitespace() {
    let schema = vec![var("display", true, None, NamingRule::DisplayName)];
    assert!(validate(&schema, &bind(&[("display", "My Fancy App")])).is_ok());
}

#[test]
fn validate_invalid_default_is_caught_when_used() {
    let schema = vec![var("project_name", false, Some("Bad Name"), NamingRule::PackageName)];
    match validate(&schema, &bind(&[])) {
        Err(GenError::InvalidVariable(n)) => assert_eq!(n, bv("project_name")),
        _ => panic!("expected InvalidVariable"),
    }
}

#[test]
fn validate_warns_on_undeclared_names() {
    let schema = vec![var("known", false, None, NamingRule::FreeText)];
    let ctx = validate(&schema, &bind(&[("known", "v"), ("mystery", "w")])).unwrap();
    assert_eq!(ctx.warnings, vec![bv("mystery")]);
    // the undeclared name did not enter the context
    assert_eq!(ctx.pairs.len(), 1);
    assert_eq!(ctx.pairs[0].name, bv("known"));
}

#[test]
fn validate_first_failing_variable_wins() {
    let schema = vec![
        var("one", true, None, NamingRule::Identifier),
        var("two", true, None, NamingRule::Identifier),
    ];
    match validate(&schema, &bind(&[("one", "9bad"), ("two", "also bad")])) {
        Err(GenError::InvalidVariable(n)) => assert_eq!(n, bv("one")),
        _ => panic!("expected InvalidVariable"),
    }
}
