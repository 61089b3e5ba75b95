use gitch_core::document::write_block;
use gitch_core::{render_diff, Algorithm, BlobPair, BlobText, DiffError, ObjectId, PathChange};

fn oid(text: &str) -> ObjectId {
    ObjectId::from_hex(text).unwrap()
}

const A: &str = "ce013625030ba8dba906f756967f9e9ca394464a";
const B: &str = "94954abda49de8615a048f8d2e64b5de848e27a1";

fn text(s: &str) -> BlobText {
    BlobText::Text(s.as_bytes().to_vec())
}

fn pair(old: &str, new: &str) -> BlobPair {
    BlobPair { old: text(old), new: text(new) }
}

fn render(changes: Vec<PathChange>, blobs: Vec<BlobPair>) -> Result<Option<String>, DiffError> {
    render_diff(&changes, &blobs, Algorithm::Histogram)
        .map(|d| d.map(|bytes| String::from_utf8(bytes).unwrap()))
}

#[test]
fn modification_renders_one_hunk() {
    let change = PathChange::Modification {
        location: b"file.txt".to_vec(),
        previous_mode: 0o100644,
        mode: 0o100644,
        previous_id: oid(A),
        id: oid(B),
    };
    let doc = render(vec![change], vec![pair("hello\n", "hello\nworld\n")]).unwrap().unwrap();
    assert_eq!(
        doc,
        "diff --git a/file.txt b/file.txt\nindex ce01362..94954ab 100644\n--- a/file.txt\n+++ b/file.txt\n@@ -1,1 +1,2 @@\n hello\n+world\n"
    );
}

#[test]
fn addition_uses_null_id_and_empty_old_side() {
    let change = PathChange::Addition { location: b"file.txt".to_vec(), mode: 0o100644, id: oid(A) };
    let doc = render(vec![change], vec![pair("ignored\n", "hello\n")]).unwrap().unwrap();
    assert_eq!(
        doc,
        "diff --git a/file.txt b/file.txt\nnew file mode 100644\nindex 0000000..ce01362\n--- /dev/null\n+++ b/file.txt\n@@ -1,0 +1,1 @@\n+hello\n"
    );
}

#[test]
fn deletion_uses_null_id_and_empty_new_side() {
    let change = PathChange::Deletion { location: b"gone.sh".to_vec(), mode: 0o100755, id: oid(A) };
    let doc = render(vec![change], vec![pair("hello\n", "ignored\n")]).unwrap().unwrap();
    assert_eq!(
        doc,
        "diff --git a/gone.sh b/gone.sh\ndeleted file mode 100755\nindex ce01362..0000000\n--- a/gone.sh\n+++ /dev/null\n@@ -1,1 +1,0 @@\n-hello\n"
    );
}

#[test]
fn pure_rename_has_no_hunk() {
    let change = PathChange::Rewrite {
        source_location: b"old.txt".to_vec(),
        location: b"new.txt".to_vec(),
        source_mode: 0o100644,
        mode: 0o100644,
        source_id: oid(A),
        id: oid(A),
    };
    let doc = render(vec![change], vec![pair("x\n", "y\n")]).unwrap().unwrap();
    assert_eq!(
        doc,
        "diff --git a/old.txt b/new.txt\nsimilarity index 100%\nrename from old.txt\nrename to new.txt\n"
    );
}

#[test]
fn pure_rename_with_mode_change_has_mode_lines() {
    let change = PathChange::Rewrite {
        source_location: b"run".to_vec(),
        location: b"run.sh".to_vec(),
        source_mode: 0o100644,
        mode: 0o100755,
        source_id: oid(A),
        id: oid(A),
    };
    let doc = render(vec![change], vec![pair("", "")]).unwrap().unwrap();
    assert_eq!(
        doc,
        "diff --git a/run b/run.sh\nold mode 100644\nnew mode 100755\nsimilarity index 100%\nrename from run\nrename to run.sh\n"
    );
}

#[test]
fn rename_with_new_content_has_full_hunk() {
    let change = PathChange::Rewrite {
        source_location: b"a.txt".to_vec(),
        location: b"b.txt".to_vec(),
        source_mode: 0o100644,
        mode: 0o100644,
        source_id: oid(A),
        id: oid(B),
    };
    let doc = render(vec![change], vec![pair("one\n", "two\n")]).unwrap().unwrap();
    assert_eq!(
        doc,
        "diff --git a/a.txt b/b.txt\nindex ce01362..94954ab 100644\n--- a/a.txt\n+++ b/b.txt\n@@ -1,1 +1,1 @@\n-one\n+two\n"
    );
}

#[test]
fn rename_with_new_content_and_mode_is_an_error() {
    let change = PathChange::Rewrite {
        source_location: b"a".to_vec(),
        location: b"b".to_vec(),
        source_mode: 0o100644,
        mode: 0o100755,
        source_id: oid(A),
        id: oid(B),
    };
    assert_eq!(render(vec![change], vec![pair("1\n", "2\n")]), Err(DiffError::RewriteModeChanged));
}

#[test]
fn non_blob_entries_are_skipped() {
    let tree = PathChange::Addition { location: b"dir".to_vec(), mode: 0o040000, id: oid(A) };
    let link = PathChange::Deletion { location: b"ln".to_vec(), mode: 0o120000, id: oid(B) };
    assert_eq!(render(vec![tree, link], vec![pair("", ""), pair("", "")]), Ok(None));
}

#[test]
fn no_changes_is_no_document() {
    assert_eq!(render(vec![], vec![]), Ok(None));
}

#[test]
fn binary_content_renders_header_only() {
    let change = PathChange::Modification {
        location: b"img.png".to_vec(),
        previous_mode: 0o100644,
        mode: 0o100644,
        previous_id: oid(A),
        id: oid(B),
    };
    let blobs = vec![BlobPair { old: BlobText::Binary, new: text("x") }];
    let doc = render(vec![change], blobs).unwrap().unwrap();
    assert_eq!(doc, "diff --git a/img.png b/img.png\nindex ce01362..94954ab 100644\n--- a/img.png\n+++ b/img.png\n");
}

#[test]
fn non_utf8_content_is_an_error() {
    let change = PathChange::Modification {
        location: b"f".to_vec(),
        previous_mode: 0o100644,
        mode: 0o100644,
        previous_id: oid(A),
        id: oid(B),
    };
    let blobs = vec![BlobPair { old: BlobText::Text(vec![0xff, b'\n']), new: text("a\n") }];
    assert_eq!(render(vec![change], blobs), Err(DiffError::NotUtf8));
}

#[test]
fn blocks_follow_change_order_and_reparse_to_paths_and_kinds() {
    let changes = vec![
        PathChange::Addition { location: b"new.txt".to_vec(), mode: 0o100644, id: oid(A) },
        PathChange::Deletion { location: b"old.txt".to_vec(), mode: 0o100644, id: oid(B) },
    ];
    let doc = render(changes, vec![pair("", "a\n"), pair("b\n", "")]).unwrap().unwrap();
    let headers: Vec<(&str, &str)> = doc
        .lines()
        .collect::<Vec<_>>()
        .windows(2)
        .filter(|w| w[0].starts_with("diff --git "))
        .map(|w| (w[0], w[1].split(' ').next().unwrap()))
        .collect();
    assert_eq!(headers, vec![("diff --git a/new.txt b/new.txt", "new"), ("diff --git a/old.txt b/old.txt", "deleted")]);
}

#[test]
fn algorithms_agree_on_a_single_added_line() {
    for alg in [Algorithm::Histogram, Algorithm::Myers, Algorithm::MyersMinimal] {
        let change = PathChange::Modification {
            location: b"f".to_vec(),
            previous_mode: 0o100644,
            mode: 0o100644,
            previous_id: oid(A),
            id: oid(B),
        };
        let mut out = Vec::new();
        assert_eq!(write_block(&mut out, &change, &pair("a\nb\n", "a\nb\nc\n"), alg), Ok(()));
        assert!(String::from_utf8(out).unwrap().ends_with("@@ -1,2 +1,3 @@\n a\n b\n+c\n"));
    }
}

#[test]
fn hunk_text_is_trimmed_at_the_end() {
    let change = PathChange::Modification {
        location: b"f".to_vec(),
        previous_mode: 0o100644,
        mode: 0o100644,
        previous_id: oid(A),
        id: oid(B),
    };
    let doc = render(vec![change], vec![pair("a\n", "a\nb  \n")]).unwrap().unwrap();
    assert!(doc.ends_with("@@ -1,1 +1,2 @@\n a\n+b\n"));
}
