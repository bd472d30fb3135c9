use gph::cli::{
    backend_env, change_repository_extension, colored, colored_terminal_text, create_git_remote_url,
    repository_extension,
};
use gph::types::{GitRequest, RequestId};

#[test]
fn extension_is_added_once() {
    assert_eq!(repository_extension("repo".to_string()), "repo.git");
    assert_eq!(repository_extension("repo.git".to_string()), "repo.git");
    assert_eq!(repository_extension("git".to_string()), "git.git");
    assert_eq!(repository_extension("".to_string()), ".git");
    assert_eq!(change_repository_extension("sample".to_string()), "sample.git");
    assert_eq!(change_repository_extension("sample.git".to_string()), "sample.git");
}

#[test]
fn colored_text_wraps_in_escape_codes() {
    assert_eq!(colored_terminal_text(255, 255, 0, "Success!"), "\x1B[38;2;255;255;0mSuccess!\x1B[0m");
    assert_eq!(colored(255, 0, 0, "x"), "\x1B[38;2;255;0;0mx\x1B[0m");
    assert_eq!(colored(-1, 10, 7, ""), "\x1B[38;2;-1;10;7m\x1B[0m");
}

#[test]
fn remote_url_names_user_and_repository() {
    assert_eq!(create_git_remote_url("1", "sample.git"), "https://gph-server.shuttleapp.rs/git/1/sample.git");
}

fn pair(a: &str, b: &str) -> (String, String) {
    (a.to_string(), b.to_string())
}

#[test]
fn backend_env_prefixes_path_info() {
    let request = GitRequest {
        id: RequestId(1),
        path_info: "sample.git/info/refs".to_string(),
        required_method: "GET".to_string(),
        query_string: Some("service=git-upload-pack".to_string()),
        content_length: None,
        content_type: Some("application/x-git".to_string()),
        body: vec![],
    };
    assert_eq!(
        backend_env(&request, "/data/git"),
        vec![
            pair("QUERY_STRING", "service=git-upload-pack"),
            pair("CONTENT_TYPE", "application/x-git"),
            pair("GIT_PROJECT_ROOT", "/data/git"),
            pair("GIT_HTTP_EXPORT_ALL", "1"),
            pair("PATH_INFO", "/sample.git/info/refs"),
            pair("REQUEST_METHOD", "GET"),
        ]
    );
}
