use scaffold::catalog::Catalog;
use scaffold::catalog::FileEntry;
use scaffold::catalog::NamingRule;
use scaffold::catalog::TemplateDescriptor;
use scaffold::catalog::VarSpec;
use scaffold::context::Binding;
use scaffold::digest::fnv64_digest;
use scaffold::errors::GenError;
use scaffold::materialize::ConflictPolicy;
use scaffold::materialize::TargetState;
use scaffold::materialize::generate;
use scaffold::materialize::materialize;
use scaffold::render::contains_token;

fn bv(s: &str) -> Vec<u8> {
    s.as_bytes().to_vec()
}

fn bind(pairs: &[(&str, &str)]) -> Vec<Binding> {
    pairs.iter().map(|(n, v)| Binding { name: bv(n), value: bv(v) }).collect()
}

/// A catalog holding one `go_http` starter template whose `project_name`
/// variable is required under the package-name rule.
fn go_catalog() -> Catalog {
    let tpl = TemplateDescriptor {
        key: bv("go_http"),
        entries: vec![
            FileEntry {
                rel_path: bv("go.mod"),
                content: bv("module {{project_name}}\n"),
                binary: false,
            },
            FileEntry {
                rel_path: bv("cmd/{{project_name}}/main.go"),
                content: bv("package main\n// {{project_name}} entry point\n"),
                binary: false,
            },
            FileEntry { rel_path: bv("logo.bin"), content: vec![0, 159, 146, 150], binary: true },
        ],
        schema: vec![
            VarSpec {
                name: bv("project_name"),
                required: true,
                default: None,
                rule: NamingRule::PackageName,
            },
        ],
    };
    Catalog::new(vec![tpl]).unwrap()
}

fn fresh_target() -> TargetState {
    TargetState { exists: false, files: Vec::new() }
}

#[test]
fn scenario_go_http_generation() {
    let catalog = go_catalog();

    // An ill-formed name is rejected by the naming rule.
    let mut t1 = fresh_target();
    match materialize(
        &catalog,
        &bv("go_http"),
        &bind(&[("project_name", "My Service")]),
        &bv("/tmp/out"),
        ConflictPolicy::Abort,
        &mut t1,
    ) {
        Err(GenError::InvalidVariable(n)) => assert_eq!(n, bv("project_name")),
        _ => panic!("expected InvalidVariable"),
    }
    assert!(!t1.exists);

    // A well-formed name renders the whole tree into the fresh target.
    let mut t2 = fresh_target();
    let g = materialize(
        &catalog,
        &bv("go_http"),
        &bind(&[("project_name", "my-service")]),
        &bv("/tmp/out"),
        ConflictPolicy::Abort,
        &mut t2,
    )
    .unwrap();
    assert!(t2.exists);
    assert_eq!(g.target, bv("/tmp/out"));
    assert_eq!(g.entries.len(), 3);
    assert_eq!(t2.files.len(), 3);
    assert_eq!(t2.files[0].0, bv("go.mod"));
    assert_eq!(t2.files[0].1, bv("module my-service\n"));
    assert_eq!(t2.files[1].0, bv("cmd/my-service/main.go"));
    assert_eq!(t2.files[1].1, bv("package main\n// my-service entry point\n"));
    assert_eq!(t2.files[2].0, bv("logo.bin"));
    assert_eq!(t2.files[2].1, vec![0, 159, 146, 150]);
    for (i, e) in g.entries.iter().enumerate() {
        assert_eq!(e.rel_path, t2.files[i].0);
        assert_eq!(e.size, t2.files[i].1.len());
        assert_eq!(e.digest, fnv64_digest(&t2.files[i].1));
    }
}

#[test]
fn determinism_two_fresh_targets_agree() {
    let catalog = go_catalog();
    let bs = bind(&[("project_name", "twin")]);
    let mut t1 = fresh_target();
    let mut t2 = fresh_target();
    let g1 = materialize(&catalog, &bv("go_http"), &bs, &bv("/a"), ConflictPolicy::Abort, &mut t1)
        .unwrap();
    let g2 = materialize(&catalog, &bv("go_http"), &bs, &bv("/b"), ConflictPolicy::Abort, &mut t2)
        .unwrap();
    assert_eq!(t1.files, t2.files);
    assert_eq!(g1.entries.len(), g2.entries.len());
    for (a, b) in g1.entries.iter().zip(g2.entries.iter()) {
        assert_eq!(a.rel_path, b.rel_path);
        assert_eq!(a.size, b.size);
        assert_eq!(a.digest, b.digest);
    }
}

#[test]
fn committed_output_holds_no_unresolved_token() {
    let catalog = go_catalog();
    let mut t = fresh_target();
    materialize(
        &catalog,
        &bv("go_http"),
        &bind(&[("project_name", "clean")]),
        &bv("/out"),
        ConflictPolicy::Abort,
        &mut t,
    )
    .unwrap();
    for (path, content) in &t.files {
        assert!(!contains_token(path));
        assert!(!contains_token(content));
    }
}

#[test]
fn atomicity_failed_request_leaves_missing_target_missing() {
    let catalog = go_catalog();
    let mut t = fresh_target();
    let r = materialize(
        &catalog,
        &bv("go_http"),
        &bind(&[]),
        &bv("/out"),
        ConflictPolicy::Abort,
        &mut t,
    );
    match r {
        Err(GenError::MissingRequiredVariable(n)) => assert_eq!(n, bv("project_name")),
        _ => panic!("expected MissingRequiredVariable"),
    }
    assert!(!t.exists);
    assert!(t.files.is_empty());
}

#[test]
fn atomicity_staging_failure_leaves_existing_target_unchanged() {
    // A template with a token its schema does not declare fails in staging.
    let tpl = TemplateDescriptor {
        key: bv("broken"),
        entries: vec![
            FileEntry { rel_path: bv("ok.txt"), content: bv("fine\n"), binary: false },
            FileEntry { rel_path: bv("bad.txt"), content: bv("x {{undeclared}}\n"), binary: false },
        ],
        schema: vec![],
    };
    let catalog = Catalog::new(vec![tpl]).unwrap();
    let mut t = TargetState { exists: true, files: vec![(bv("keep.txt"), bv("old contents"))] };
    match materialize(
        &catalog,
        &bv("broken"),
        &bind(&[]),
        &bv("/out"),
        ConflictPolicy::Overwrite,
        &mut t,
    ) {
        Err(GenError::UndefinedVariable { name, path }) => {
            assert_eq!(name, bv("undeclared"));
            assert_eq!(path, bv("bad.txt"));
        },
        _ => panic!("expected UndefinedVariable"),
    }
    assert!(t.exists);
    assert_eq!(t.files, vec![(bv("keep.txt"), bv("old contents"))]);
}

#[test]
fn conflict_abort_on_nonempty_target() {
    let catalog = go_catalog();
    let mut t = TargetState { exists: true, files: vec![(bv("present.txt"), bv("here"))] };
    match materialize(
        &catalog,
        &bv("go_http"),
        &bind(&[("project_name", "blocked")]),
        &bv("/occupied"),
        ConflictPolicy::Abort,
        &mut t,
    ) {
        Err(GenError::FileConflict(p)) => assert_eq!(p, bv("/occupied")),
        _ => panic!("expected FileConflict"),
    }
    assert!(t.exists);
    assert_eq!(t.files, vec![(bv("present.txt"), bv("here"))]);
}

#[test]
fn conflict_overwrite_replaces_target_with_fresh_render() {
    let catalog = go_catalog();
    let bs = bind(&[("project_name", "anew")]);

    let mut occupied = TargetState { exists: true, files: vec![(bv("stale.txt"), bv("stale"))] };
    let g1 = materialize(
        &catalog,
        &bv("go_http"),
        &bs,
        &bv("/out"),
        ConflictPolicy::Overwrite,
        &mut occupied,
    )
    .unwrap();

    let mut fresh = fresh_target();
    let g2 = materialize(&catalog, &bv("go_http"), &bs, &bv("/out"), ConflictPolicy::Abort,
        &mut fresh)
        .unwrap();

    assert_eq!(occupied.files, fresh.files);
    for (a, b) in g1.entries.iter().zip(g2.entries.iter()) {
        assert_eq!(a.rel_path, b.rel_path);
        assert_eq!(a.size, b.size);
        assert_eq!(a.digest, b.digest);
    }
}

#[test]
fn empty_existing_target_does_not_conflict() {
    let catalog = go_catalog();
    let mut t = TargetState { exists: true, files: Vec::new() };
    let r = materialize(
        &catalog,
        &bv("go_http"),
        &bind(&[("project_name", "roomy")]),
        &bv("/empty"),
        ConflictPolicy::Abort,
        &mut t,
    );
    assert!(r.is_ok());
}

#[test]
fn unknown_key_fails_before_anything_else() {
    let catalog = go_catalog();
    let mut t = fresh_target();
    match materialize(
        &catalog,
        &bv("zig_quic"),
        &bind(&[]),
        &bv("/out"),
        ConflictPolicy::Abort,
        &mut t,
    ) {
        Err(GenError::TemplateNotFound(k)) => assert_eq!(k, bv("zig_quic")),
        _ => panic!("expected TemplateNotFound"),
    }
    assert!(!t.exists);
}

#[test]
fn colliding_rendered_paths_conflict() {
    // Two entries whose paths render to the same name.
    let tpl = TemplateDescriptor {
        key: bv("collide"),
        entries: vec![
            FileEntry { rel_path: bv("{{a}}.txt"), content: bv("1"), binary: false },
            FileEntry { rel_path: bv("{{b}}.txt"), content: bv("2"), binary: false },
        ],
        schema: vec![
            VarSpec { name: bv("a"), required: true, default: None, rule: NamingRule::Identifier },
            VarSpec { name: bv("b"), required: true, default: None, rule: NamingRule::Identifier },
        ],
    };
    let catalog = Catalog::new(vec![tpl]).unwrap();
    match generate(&catalog, &bv("collide"), &bind(&[("a", "same"), ("b", "same")])) {
        Err(GenError::FileConflict(p)) => assert_eq!(p, bv("same.txt")),
        _ => panic!("expected FileConflict"),
    }
}

#[test]
fn generate_stages_without_touching_any_target() {
    let catalog = go_catalog();
    let stage = generate(&catalog, &bv("go_http"), &bind(&[("project_name", "pure")])).unwrap();
    assert_eq!(stage.files.len(), 3);
    assert_eq!(stage.files[0].rel_path, bv("go.mod"));
    assert_eq!(stage.files[0].content, bv("module pure\n"));
}

#[test]
fn digest_known_vectors() {
    assert_eq!(fnv64_digest(&Vec::new()), 0xcbf29ce484222325);
    assert_eq!(fnv64_digest(&bv("a")), 0xaf63dc4c8601ec8c);
    assert_eq!(fnv64_digest(&bv("abc")), 0xe71fa2190541574b);
    assert_ne!(fnv64_digest(&bv("abc")), fnv64_digest(&bv("acb")));
}
