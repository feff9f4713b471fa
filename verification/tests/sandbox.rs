//! Resolution against a recorded filesystem.

use sandbox_path::rejection::{MissingPart, Rejection};
use sandbox_path::resolve_sandbox_path;
use sandbox_path::snapshot::Snapshot;
use tempfile::{Builder, TempDir};

fn workspace() -> Snapshot {
    let mut fs = Snapshot::new();
    fs.record(b"/ws", b"/ws");
    fs.record(b"/ws/data", b"/ws/data");
    fs.record(b"/ws/data/test.txt", b"/ws/data/test.txt");
    fs.record(b"/etc/passwd", b"/etc/passwd");
    fs
}

#[test]
fn test_dotdot_component_blocked() {
    let dir = TempDir::new().unwrap();
    let root = dir.path().to_str().unwrap().as_bytes().to_vec();
    let fs = Snapshot::new();
    let result = resolve_sandbox_path("../../../etc/passwd", &root, &fs);
    assert!(result.is_err());
    assert!(result.unwrap_err().message().contains("Path traversal denied"));
}

#[test]
fn test_symlink_escape_blocked() {
    let dir = TempDir::new().unwrap();
    let outside = TempDir::new().unwrap();
    let _secret =
        Builder::new().prefix("secret").suffix(".txt").rand_bytes(0).tempfile_in(outside.path()).unwrap();
    let root = dir.path().to_str().unwrap().as_bytes().to_vec();
    let canonical_root = dir.path().canonicalize().unwrap();
    let canonical_secret = outside.path().canonicalize().unwrap().join("secret.txt");

    // The workspace holds a link `escape` to the directory outside.
    let mut fs = Snapshot::new();
    fs.record(&root, canonical_root.to_str().unwrap().as_bytes());
    fs.record(
        dir.path().join("escape/secret.txt").to_str().unwrap().as_bytes(),
        canonical_secret.to_str().unwrap().as_bytes(),
    );

    let result = resolve_sandbox_path("escape/secret.txt", &root, &fs);
    assert!(result.is_err());
    assert!(result.unwrap_err().message().contains("Access denied"));
}

#[test]
fn existing_file_resolves_to_its_canonical_path() {
    let result = resolve_sandbox_path("data/test.txt", b"/ws", &workspace());
    assert_eq!(result, Ok(b"/ws/data/test.txt".to_vec()));
}

#[test]
fn traversal_is_denied_with_its_message() {
    let result = resolve_sandbox_path("../../../etc/passwd", b"/ws", &workspace());
    assert_eq!(result, Err(Rejection::TraversalDenied));
    assert!(result.unwrap_err().message().contains("Path traversal denied"));
}

#[test]
fn absolute_path_outside_is_denied_with_its_message() {
    let result = resolve_sandbox_path("/etc/passwd", b"/ws", &workspace());
    assert_eq!(result, Err(Rejection::AccessDenied("/etc/passwd".to_string())));
    assert!(result.unwrap_err().message().contains("Access denied"));
}

#[test]
fn traversal_is_denied_even_where_nothing_exists() {
    let fs = Snapshot::new();
    assert_eq!(resolve_sandbox_path("..", b"/ws", &fs), Err(Rejection::TraversalDenied));
    assert_eq!(resolve_sandbox_path("a/../b", b"/gone", &fs), Err(Rejection::TraversalDenied));
    assert_eq!(resolve_sandbox_path("/ws/..", b"", &fs), Err(Rejection::TraversalDenied));
}

#[test]
fn traversal_is_denied_even_where_it_stays_inside() {
    let mut fs = workspace();
    fs.record(b"/ws/data/../data/test.txt", b"/ws/data/test.txt");
    let result = resolve_sandbox_path("data/../data/test.txt", b"/ws", &fs);
    assert_eq!(result, Err(Rejection::TraversalDenied));
}

#[test]
fn absolute_path_inside_is_resolved() {
    let result = resolve_sandbox_path("/ws/data/test.txt", b"/ws", &workspace());
    assert_eq!(result, Ok(b"/ws/data/test.txt".to_vec()));
}

#[test]
fn textual_prefix_of_the_root_is_not_enough() {
    let mut fs = workspace();
    fs.record(b"/workspace2/x", b"/workspace2/x");
    fs.record(b"/ws-evil/x", b"/ws-evil/x");
    assert_eq!(
        resolve_sandbox_path("/workspace2/x", b"/ws", &fs),
        Err(Rejection::AccessDenied("/workspace2/x".to_string()))
    );
    assert_eq!(
        resolve_sandbox_path("/ws-evil/x", b"/ws", &fs),
        Err(Rejection::AccessDenied("/ws-evil/x".to_string()))
    );
}

#[test]
fn root_is_compared_in_its_canonical_form() {
    let mut fs = Snapshot::new();
    fs.record(b"/link", b"/real/ws");
    fs.record(b"/link/file.txt", b"/real/ws/file.txt");
    fs.record(b"/real/ws/file.txt", b"/real/ws/file.txt");
    assert_eq!(resolve_sandbox_path("file.txt", b"/link", &fs), Ok(b"/real/ws/file.txt".to_vec()));
    assert_eq!(
        resolve_sandbox_path("/real/ws/file.txt", b"/link", &fs),
        Ok(b"/real/ws/file.txt".to_vec())
    );
    assert_eq!(resolve_sandbox_path("new.txt", b"/link", &fs), Ok(b"/real/ws/new.txt".to_vec()));
}

#[test]
fn resolved_path_resolves_to_itself() {
    let fs = workspace();
    let first = resolve_sandbox_path("data//./test.txt", b"/ws", &{
        let mut fs = workspace();
        fs.record(b"/ws/data//./test.txt", b"/ws/data/test.txt");
        fs
    })
    .unwrap();
    assert_eq!(first, b"/ws/data/test.txt".to_vec());
    let again = resolve_sandbox_path(std::str::from_utf8(&first).unwrap(), b"/ws", &fs);
    assert_eq!(again, Ok(first));
}

#[test]
fn resolved_new_file_resolves_to_itself() {
    let fs = workspace();
    let first = resolve_sandbox_path("data/new_file.txt", b"/ws", &fs).unwrap();
    assert_eq!(first, b"/ws/data/new_file.txt".to_vec());
    let again = resolve_sandbox_path(std::str::from_utf8(&first).unwrap(), b"/ws", &fs);
    assert_eq!(again, Ok(first));
}

#[test]
fn link_to_the_outside_is_denied() {
    let mut fs = workspace();
    fs.record(b"/ws/escape", b"/outside");
    fs.record(b"/ws/escape/secret.txt", b"/outside/secret.txt");
    assert_eq!(
        resolve_sandbox_path("escape/secret.txt", b"/ws", &fs),
        Err(Rejection::AccessDenied("escape/secret.txt".to_string()))
    );
    assert_eq!(
        resolve_sandbox_path("escape", b"/ws", &fs),
        Err(Rejection::AccessDenied("escape".to_string()))
    );
}

#[test]
fn new_file_below_a_link_to_the_outside_is_denied() {
    let mut fs = workspace();
    fs.record(b"/ws/escape", b"/outside");
    assert_eq!(
        resolve_sandbox_path("escape/new.txt", b"/ws", &fs),
        Err(Rejection::AccessDenied("escape/new.txt".to_string()))
    );
}

#[test]
fn new_file_is_its_name_joined_to_the_canonical_parent() {
    let mut fs = workspace();
    fs.record(b"/ws/alias", b"/ws/data");
    assert_eq!(
        resolve_sandbox_path("data/new_file.txt", b"/ws", &fs),
        Ok(b"/ws/data/new_file.txt".to_vec())
    );
    assert_eq!(
        resolve_sandbox_path("alias/new_file.txt", b"/ws", &fs),
        Ok(b"/ws/data/new_file.txt".to_vec())
    );
    assert_eq!(resolve_sandbox_path("new_file.txt", b"/ws", &fs), Ok(b"/ws/new_file.txt".to_vec()));
}

#[test]
fn new_file_in_the_root_directory_gets_one_separator() {
    let mut fs = Snapshot::new();
    fs.record(b"/", b"/");
    assert_eq!(resolve_sandbox_path("new_file.txt", b"/", &fs), Ok(b"/new_file.txt".to_vec()));
}

#[test]
fn missing_parent_is_a_parent_resolution_failure() {
    let result = resolve_sandbox_path("a/b/c.txt", b"/ws", &workspace());
    assert_eq!(
        result,
        Err(Rejection::ParentResolution("No such file or directory".to_string()))
    );
    assert_eq!(
        result.unwrap_err().message(),
        "Failed to resolve parent directory: No such file or directory"
    );
}

#[test]
fn missing_root_is_a_root_resolution_failure() {
    let fs = Snapshot::new();
    let result = resolve_sandbox_path("data/test.txt", b"/ws", &fs);
    assert_eq!(result, Err(Rejection::RootResolution("No such file or directory".to_string())));
    assert_eq!(
        result.unwrap_err().message(),
        "Failed to resolve workspace root: No such file or directory"
    );
}

#[test]
fn root_that_cannot_be_made_canonical_is_a_root_resolution_failure() {
    let mut fs = Snapshot::new();
    fs.record_failure(b"/ws", "Permission denied (os error 13)");
    let result = resolve_sandbox_path("data/test.txt", b"/ws", &fs);
    assert_eq!(
        result,
        Err(Rejection::RootResolution("Permission denied (os error 13)".to_string()))
    );
}

#[test]
fn existing_path_that_cannot_be_made_canonical_is_a_path_resolution_failure() {
    let mut fs = workspace();
    fs.record_failure(b"/ws/locked", "Permission denied (os error 13)");
    let result = resolve_sandbox_path("locked", b"/ws", &fs);
    assert_eq!(
        result,
        Err(Rejection::PathResolution("Permission denied (os error 13)".to_string()))
    );
    assert_eq!(
        result.unwrap_err().message(),
        "Failed to resolve path: Permission denied (os error 13)"
    );
}

#[test]
fn candidate_without_a_parent_is_invalid() {
    let mut fs = Snapshot::new();
    fs.record(b"/ws", b"/ws");
    let result = resolve_sandbox_path("/", b"/ws", &fs);
    assert_eq!(result, Err(Rejection::InvalidPath(MissingPart::Parent)));
    assert_eq!(result.unwrap_err().message(), "Invalid path: no parent directory");
}

#[test]
fn candidate_without_a_file_name_is_invalid() {
    let mut fs = Snapshot::new();
    fs.record(b"", b"/cwd");
    let result = resolve_sandbox_path(".", b"", &fs);
    assert_eq!(result, Err(Rejection::InvalidPath(MissingPart::FileName)));
    assert_eq!(result.unwrap_err().message(), "Invalid path: no filename");
}

#[test]
fn access_denied_message_points_to_the_tools_for_the_outside() {
    let message = Rejection::AccessDenied("/etc/passwd".to_string()).message();
    assert_eq!(
        message,
        "Access denied: path '/etc/passwd' resolves outside workspace. \
         If you have an MCP filesystem server configured, use the \
         mcp_filesystem_* tools (e.g. mcp_filesystem_read_file, \
         mcp_filesystem_list_directory) to access files outside \
         the workspace."
    );
}

#[test]
fn traversal_message_is_exact() {
    assert_eq!(
        Rejection::TraversalDenied.message(),
        "Path traversal denied: '..' components are forbidden"
    );
}

#[test]
fn later_record_replaces_an_earlier_one() {
    let mut fs = Snapshot::new();
    fs.record(b"/ws", b"/ws");
    fs.record(b"/ws/file", b"/elsewhere/file");
    fs.record(b"/ws/file", b"/ws/file");
    assert_eq!(fs.canonicalize(b"/ws/file"), Ok(b"/ws/file".to_vec()));
    assert_eq!(resolve_sandbox_path("file", b"/ws", &fs), Ok(b"/ws/file".to_vec()));
}

#[test]
fn snapshot_answers_for_recorded_paths_only() {
    let mut fs = Snapshot::new();
    assert!(!fs.is_present(b"/ws"));
    fs.record(b"/ws", b"/real");
    fs.record_failure(b"/locked", "Permission denied");
    assert!(fs.is_present(b"/ws"));
    assert!(fs.is_present(b"/locked"));
    assert!(!fs.is_present(b"/ws/"));
    assert_eq!(fs.canonicalize(b"/ws"), Ok(b"/real".to_vec()));
    assert_eq!(fs.canonicalize(b"/locked"), Err("Permission denied".to_string()));
    assert_eq!(fs.canonicalize(b"/ws/"), Err("No such file or directory".to_string()));
}

#[test]
fn non_ascii_names_are_resolved_byte_for_byte() {
    let mut fs = Snapshot::new();
    fs.record(b"/ws", b"/ws");
    fs.record("/ws/données".as_bytes(), "/ws/données".as_bytes());
    assert_eq!(
        resolve_sandbox_path("données/été.txt", b"/ws", &fs),
        Ok("/ws/données/été.txt".as_bytes().to_vec())
    );
}

#[test]
fn clone_of_a_rejection_is_the_same_rejection() {
    let denied = Rejection::AccessDenied("/etc/passwd".to_string());
    assert_eq!(denied.clone(), denied);
    assert_eq!(denied.clone().message(), denied.message());
    assert_eq!(Rejection::InvalidPath(MissingPart::FileName).clone(), Rejection::InvalidPath(MissingPart::FileName));
    assert_eq!(Rejection::RootResolution("gone".to_string()).clone(), Rejection::RootResolution("gone".to_string()));
}

#[test]
fn outcome_rests_on_root_candidate_and_parent_alone() {
    let mut small = Snapshot::new();
    small.record(b"/ws", b"/ws");
    small.record(b"/ws/data", b"/ws/data");
    let mut large = workspace();
    large.record(b"/ws/other", b"/elsewhere");
    large.record(b"/ws/data/new.txt/below", b"/ws/data/new.txt/below");
    large.record_failure(b"/", "Permission denied");
    for asked in ["data/new.txt", "data", "/ws/data/new.txt", "data/./new.txt"] {
        assert_eq!(
            resolve_sandbox_path(asked, b"/ws", &small),
            resolve_sandbox_path(asked, b"/ws", &large),
            "asked {:?}",
            asked
        );
    }
}

#[test]
fn resolved_path_lies_within_the_canonical_root() {
    let mut fs = workspace();
    fs.record(b"/ws/inside", b"/ws/data");
    fs.record(b"/ws/outside", b"/etc");
    fs.record(b"/ws/root", b"/");
    fs.record(b"/ws/up", b"/w");
    let asked = [
        "", ".", "data", "data/test.txt", "data/new", "inside", "inside/new", "outside",
        "outside/passwd", "root", "root/ws", "up", "up/s", "/ws", "/ws/data", "/", "/etc/passwd",
        "nowhere/new",
    ];
    for path in asked {
        if let Ok(resolved) = resolve_sandbox_path(path, b"/ws", &fs) {
            assert!(
                resolved == b"/ws".to_vec() || resolved.starts_with(b"/ws/"),
                "{:?} resolved to {:?}",
                path,
                String::from_utf8_lossy(&resolved)
            );
        }
    }
    assert_eq!(resolve_sandbox_path("root/ws", b"/ws", &fs), Ok(b"/ws".to_vec()));
    assert_eq!(
        resolve_sandbox_path("up/s", b"/ws", &fs),
        Err(Rejection::AccessDenied("up/s".to_string()))
    );
}
