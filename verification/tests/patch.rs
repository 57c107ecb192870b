use arc::v4a_patch::{apply_hunks, parse_v4a_patch, try_parse_v4a_patch, Change, Hunk, PatchOperation};

#[test]
fn parse_v4a_add_file() {
    let patch = "\
*** Begin Patch
*** Add File: src/new_file.rs
+fn main() {
+    println!(\"hello\");
+}
*** End Patch";

    let ops = parse_v4a_patch(patch).unwrap();
    assert_eq!(ops.len(), 1);
    assert_eq!(
        ops[0],
        PatchOperation::Add {
            path: "src/new_file.rs".into(),
            content: "fn main() {\n    println!(\"hello\");\n}".into(),
        }
    );
}

#[test]
fn parse_v4a_delete_file() {
    let patch = "\
*** Begin Patch
*** Delete File: src/old_file.rs
*** End Patch";

    let ops = parse_v4a_patch(patch).unwrap();
    assert_eq!(ops.len(), 1);
    assert_eq!(
        ops[0],
        PatchOperation::Delete {
            path: "src/old_file.rs".into(),
        }
    );
}

#[test]
fn parse_v4a_update_file() {
    let patch = "\
*** Begin Patch
*** Update File: src/lib.rs
@@ fn hello() @@
-    println!(\"old\");
+    println!(\"new\");
*** End Patch";

    let ops = parse_v4a_patch(patch).unwrap();
    assert_eq!(ops.len(), 1);
    match &ops[0] {
        PatchOperation::Update { path, hunks } => {
            assert_eq!(path, "src/lib.rs");
            assert_eq!(hunks.len(), 1);
            assert_eq!(hunks[0].context_line, "fn hello()");
            assert_eq!(hunks[0].changes.len(), 2);
            assert_eq!(
                hunks[0].changes[0],
                Change::Remove("    println!(\"old\");".into())
            );
            assert_eq!(
                hunks[0].changes[1],
                Change::Add("    println!(\"new\");".into())
            );
        }
        _ => panic!("Expected Update operation"),
    }
}

#[test]
fn parse_v4a_multi_operation() {
    let patch = "\
*** Begin Patch
*** Add File: src/a.rs
+// file a
*** Delete File: src/b.rs
*** Update File: src/c.rs
@@ fn main() @@
-    old_call();
+    new_call();
*** End Patch";

    let ops = parse_v4a_patch(patch).unwrap();
    assert_eq!(ops.len(), 3);
    assert!(matches!(&ops[0], PatchOperation::Add { .. }));
    assert!(matches!(&ops[1], PatchOperation::Delete { .. }));
    assert!(matches!(&ops[2], PatchOperation::Update { .. }));
}

#[test]
fn parse_v4a_bare_at_at_hunk() {
    let patch = "\
*** Begin Patch
*** Update File: src/game.py
@@
-from src.cards import Suit
+from src.cards import Card, Suit
*** End Patch";

    let ops = parse_v4a_patch(patch).unwrap();
    assert_eq!(ops.len(), 1);
    match &ops[0] {
        PatchOperation::Update { path, hunks } => {
            assert_eq!(path, "src/game.py");
            assert_eq!(hunks.len(), 1);
            assert_eq!(hunks[0].context_line, "");
            assert_eq!(hunks[0].changes.len(), 2);
        }
        _ => panic!("Expected Update operation"),
    }
}

#[test]
fn parse_v4a_multiple_bare_at_at_hunks() {
    let patch = "\
*** Begin Patch
*** Update File: src/game.py
@@
-from src.cards import Suit
+from src.cards import Card, Suit
@@
-    stock: list = field(default_factory=list)
+    stock: list[Card] = field(default_factory=list)
*** End Patch";

    let ops = parse_v4a_patch(patch).unwrap();
    match &ops[0] {
        PatchOperation::Update { hunks, .. } => {
            assert_eq!(hunks.len(), 2);
            assert_eq!(hunks[0].context_line, "");
            assert_eq!(hunks[1].context_line, "");
        }
        _ => panic!("Expected Update operation"),
    }
}

#[test]
fn parse_v4a_mixed_bare_and_contextual_hunks() {
    let patch = "\
*** Begin Patch
*** Update File: src/lib.rs
@@ fn setup() @@
-    old_setup();
+    new_setup();
@@
-    old_teardown();
+    new_teardown();
*** End Patch";

    let ops = parse_v4a_patch(patch).unwrap();
    match &ops[0] {
        PatchOperation::Update { hunks, .. } => {
            assert_eq!(hunks.len(), 2);
            assert_eq!(hunks[0].context_line, "fn setup()");
            assert_eq!(hunks[1].context_line, "");
        }
        _ => panic!("Expected Update operation"),
    }
}

#[test]
fn parse_v4a_bare_at_at_with_context_lines() {
    let patch = "\
*** Begin Patch
*** Update File: src/lib.rs
@@
 fn unchanged() {
-    old_line();
+    new_line();
 }
*** End Patch";

    let ops = parse_v4a_patch(patch).unwrap();
    match &ops[0] {
        PatchOperation::Update { hunks, .. } => {
            assert_eq!(hunks.len(), 1);
            assert_eq!(hunks[0].context_line, "");
            assert_eq!(hunks[0].changes.len(), 4);
            assert_eq!(hunks[0].changes[0], Change::Context("fn unchanged() {".into()));
            assert_eq!(hunks[0].changes[1], Change::Remove("    old_line();".into()));
            assert_eq!(hunks[0].changes[2], Change::Add("    new_line();".into()));
            assert_eq!(hunks[0].changes[3], Change::Context("}".into()));
        }
        _ => panic!("Expected Update operation"),
    }
}

#[test]
fn parse_v4a_bare_at_at_add_only_errors_on_apply() {
    let patch = "\
*** Begin Patch
*** Update File: src/lib.rs
@@
+new_line();
*** End Patch";

    let ops = parse_v4a_patch(patch).unwrap();
    match &ops[0] {
        PatchOperation::Update { hunks, .. } => {
            assert_eq!(hunks[0].context_line, "");
            assert_eq!(hunks[0].changes.len(), 1);
            assert_eq!(hunks[0].changes[0], Change::Add("new_line();".into()));
        }
        _ => panic!("Expected Update operation"),
    }

    match &ops[0] {
        PatchOperation::Update { hunks, .. } => {
            let result = apply_hunks("fn main() {}\n", hunks);
            assert!(result.is_err());
            assert!(result.unwrap_err().contains("no remove or context lines"));
        }
        _ => panic!("Expected Update operation"),
    }
}

#[test]
fn parse_rejects_add_line_without_plus() {
    let patch = "\
*** Begin Patch
*** Add File: a.txt
oops
*** End Patch";
    assert_eq!(
        parse_v4a_patch(patch).unwrap_err(),
        "Expected '+' prefix in Add File block, got: oops"
    );
}

#[test]
fn parse_rejects_unknown_section() {
    let patch = "*** Begin Patch\n*** Rename File: a\n*** End Patch";
    assert_eq!(
        parse_v4a_patch(patch).unwrap_err(),
        "Unexpected line in patch: *** Rename File: a"
    );
}

#[test]
fn parse_rejects_bad_hunk_line() {
    let patch = "*** Begin Patch\n*** Update File: a\n@@\n?bad\n*** End Patch";
    assert_eq!(
        parse_v4a_patch(patch).unwrap_err(),
        "Unexpected line in hunk (expected +, -, or space prefix): ?bad"
    );
}

#[test]
fn parse_rejects_missing_hunk_header() {
    let patch = "*** Begin Patch\n*** Update File: a\n-old\n*** End Patch";
    assert_eq!(
        parse_v4a_patch(patch).unwrap_err(),
        "Expected @@ context @@ line, got: -old"
    );
}

#[test]
fn parse_without_begin_marker_gives_no_operations() {
    let ops = parse_v4a_patch("*** Add File: a\n+x").unwrap();
    assert!(ops.is_empty());
}

#[test]
fn parse_empty_line_in_hunk_is_context() {
    let patch = "*** Begin Patch\n*** Update File: a\n@@\n\n-x\n*** End Patch";
    let ops = parse_v4a_patch(patch).unwrap();
    match &ops[0] {
        PatchOperation::Update { hunks, .. } => {
            assert_eq!(hunks[0].changes[0], Change::Context(String::new()));
            assert_eq!(hunks[0].changes[1], Change::Remove("x".into()));
        }
        _ => panic!("Expected Update operation"),
    }
}

#[test]
fn apply_hunks_bare_at_at_update() {
    let content = "from src.cards import Suit\nfrom src.piles import Pile\n\nclass GameState:\n    stock: list = field(default_factory=list)\n    waste: list = field(default_factory=list)";
    let hunks = vec![
        Hunk {
            context_line: String::new(),
            changes: vec![
                Change::Remove("from src.cards import Suit".into()),
                Change::Add("from src.cards import Card, Suit".into()),
            ],
        },
        Hunk {
            context_line: String::new(),
            changes: vec![
                Change::Remove("    stock: list = field(default_factory=list)".into()),
                Change::Remove("    waste: list = field(default_factory=list)".into()),
                Change::Add("    stock: list[Card] = field(default_factory=list)".into()),
                Change::Add("    waste: list[Card] = field(default_factory=list)".into()),
            ],
        },
    ];
    let out = apply_hunks(content, &hunks).unwrap();
    assert_eq!(
        out,
        "from src.cards import Card, Suit\nfrom src.piles import Pile\n\nclass GameState:\n    stock: list[Card] = field(default_factory=list)\n    waste: list[Card] = field(default_factory=list)"
    );
}

#[test]
fn apply_hunks_bare_at_at_with_context_lines() {
    let hunks = vec![Hunk {
        context_line: String::new(),
        changes: vec![
            Change::Context("fn unchanged() {".into()),
            Change::Remove("    old_line();".into()),
            Change::Add("    new_line();".into()),
            Change::Context("}".into()),
        ],
    }];
    let out = apply_hunks("fn unchanged() {\n    old_line();\n}", &hunks).unwrap();
    assert_eq!(out, "fn unchanged() {\n    new_line();\n}");
}

#[test]
fn apply_hunks_mixed_bare_and_contextual() {
    let content = "import foo\nimport bar\n\ndef setup():\n    old_setup()\n\ndef teardown():\n    old_teardown()\n";
    let hunks = vec![
        Hunk {
            context_line: "def setup():".into(),
            changes: vec![
                Change::Remove("    old_setup()".into()),
                Change::Add("    new_setup()".into()),
            ],
        },
        Hunk {
            context_line: String::new(),
            changes: vec![
                Change::Remove("    old_teardown()".into()),
                Change::Add("    new_teardown()".into()),
            ],
        },
    ];
    let out = apply_hunks(content, &hunks).unwrap();
    assert_eq!(
        out,
        "import foo\nimport bar\n\ndef setup():\n    new_setup()\n\ndef teardown():\n    new_teardown()"
    );
}

#[test]
fn apply_hunks_explicit_context_keeps_anchor_line() {
    let hunks = vec![Hunk {
        context_line: "fn hello() {".into(),
        changes: vec![
            Change::Remove("    println!(\"old\");".into()),
            Change::Add("    println!(\"new\");".into()),
        ],
    }];
    let out = apply_hunks("fn hello() {\n    println!(\"old\");\n}", &hunks).unwrap();
    assert_eq!(out, "fn hello() {\n    println!(\"new\");\n}");
}

#[test]
fn apply_hunks_missing_context_line_errors() {
    let hunks = vec![Hunk {
        context_line: "def nonexistent():".into(),
        changes: vec![Change::Remove("    old_body()".into())],
    }];
    assert_eq!(
        apply_hunks("def real_fn():\n    pass", &hunks).unwrap_err(),
        "Could not find context line in file: 'def nonexistent():'"
    );
}

#[test]
fn apply_hunks_missing_locator_line_errors() {
    let hunks = vec![Hunk {
        context_line: String::new(),
        changes: vec![Change::Remove("absent".into())],
    }];
    assert_eq!(
        apply_hunks("present", &hunks).unwrap_err(),
        "Could not find line in file: 'absent'"
    );
}

#[test]
fn apply_hunks_matches_trimmed_lines() {
    let hunks = vec![Hunk {
        context_line: String::new(),
        changes: vec![Change::Remove("  b  ".into()), Change::Add("B".into())],
    }];
    assert_eq!(apply_hunks("a\n   b\nc", &hunks).unwrap(), "a\nB\nc");
}

#[test]
fn apply_no_hunks_joins_lines() {
    assert_eq!(apply_hunks("a\r\nb\n", &[]).unwrap(), "a\nb");
}

#[test]
fn try_parse_reports_short_header() {
    let patch = "*** Begin Patch\n*** Update File: a\n@@ @@\n-x\n*** End Patch";
    assert!(try_parse_v4a_patch(patch).is_none());
    let fine = "*** Begin Patch\n*** Delete File: a\n*** End Patch";
    assert_eq!(try_parse_v4a_patch(fine).unwrap().unwrap().len(), 1);
}

#[test]
fn text_around_markers_is_ignored() {
    let p = "*** Begin Patch\n*** Delete File: old.txt\n*** Add File: new.txt\n+hello\n*** End Patch";
    let wrapped = format!("notes before\n{p}\nanything after\n+ more");
    assert_eq!(parse_v4a_patch(&wrapped), parse_v4a_patch(p));
    assert_eq!(parse_v4a_patch("just prose\nno markers"), Ok(vec![]));
}

#[test]
fn text_around_markers_is_ignored_when_patch_ends_with_newline() {
    let p = "*** Begin Patch\n*** Delete File: old.txt\n*** End Patch\n";
    let wrapped = format!("intro\r\n\n{p}\n\ntail text");
    assert_eq!(parse_v4a_patch(&wrapped), parse_v4a_patch(p));
    assert_eq!(parse_v4a_patch("intro\n"), Ok(vec![]));
}
