//! The owner's command line: its commands, and what it computes to share a
//! repository and to answer requests with `git-http-backend`.
use vstd::prelude::*;
use vstd::string::*;

use crate::auth::decimal_text;
use crate::types::GitRequest;

verus! {

/// Address of the relay over HTTPS.
pub const HTTP_SERVER_ADDR: &'static str = "https://gph-server.shuttleapp.rs";

/// Address of the relay over secure websockets.
pub const WS_SERVER_ADDR: &'static str = "wss://gph-server.shuttleapp.rs";

/// The commands of the command line.
#[derive(Debug, Clone)]
pub enum CliCommand {
    /// Sign up using GitHub OAuth2.
    Auth(Auth),
    /// Share a git repository.
    Share(Share),
}

/// Sign-up: the port of the local server that receives the auth code.
#[derive(Debug, Clone, Copy, PartialEq, Eq, Structural)]
pub struct Auth {
    pub listen_port: u64,
}

/// Publishing a repository under a name.
#[derive(Debug, Clone)]
pub struct Open {
    pub repository: Option<String>,
}

/// Sharing a repository.
#[derive(Debug, Clone)]
pub struct Share {
    /// Remote repository name.
    pub repository: Option<String>,
    /// Do not push local commits to the shared repository.
    pub no_push: bool,
    /// Forbid other users from pushing to the shared repository.
    pub readonly: bool,
}

/// Whether a name ends with `.git`.
pub open spec fn has_git_extension(s: Seq<char>) -> bool {
    s.len() >= 4 && s.subrange(s.len() - 4, s.len() as int) == ".git"@
}

/// The repository name with a `.git` extension, added where it lacks one.
pub open spec fn with_git_extension(s: Seq<char>) -> Seq<char> {
    if has_git_extension(s) {
        s
    } else {
        s + ".git"@
    }
}

/// The repository name with a `.git` extension, added where it lacks one.
pub fn repository_extension(repository: String) -> (r: String)
    ensures
        r@ == with_git_extension(repository@),
{
    proof {
        reveal_strlit(".git");
    }
    let n = repository.as_str().unicode_len();
    if n >= 4 && repository.as_str().get_char(n - 4) == '.' && repository.as_str().get_char(n - 3)
        == 'g' && repository.as_str().get_char(n - 2) == 'i' && repository.as_str().get_char(n - 1)
        == 't' {
        assert(repository@.subrange(n - 4, n as int) =~= ".git"@);
        repository
    } else {
        proof {
            if has_git_extension(repository@) {
                let tail = repository@.subrange(n - 4, n as int);
                assert(tail[0] == '.' && tail[1] == 'g' && tail[2] == 'i' && tail[3] == 't');
            }
        }
        repository.concat(".git")
    }
}

/// The repository name with a `.git` extension, added where it lacks one.
pub fn change_repository_extension(repository: String) -> (r: String)
    ensures
        r@ == with_git_extension(repository@),
{
    repository_extension(repository)
}

/// Relies on the `Display` of i32: its decimal text.
#[verifier::external_body]
fn i32_text(n: i32) -> (r: String)
    ensures
        r@ == decimal_text(n as int),
{
    n.to_string()
}

/// `text` drawn in the 24-bit colour (`r`, `g`, `b`) on a terminal.
pub open spec fn colored_spec(r: int, g: int, b: int, text: Seq<char>) -> Seq<char> {
    "\x1B[38;2;"@ + decimal_text(r) + ";"@ + decimal_text(g) + ";"@ + decimal_text(b) + "m"@ + text
        + "\x1B[0m"@
}

/// `text` wrapped in the escape sequences that colour it (`r`, `g`, `b`) on
/// a terminal.
pub fn colored_terminal_text(r: i32, g: i32, b: i32, text: &str) -> (s: String)
    ensures
        s@ == colored_spec(r as int, g as int, b as int, text@),
{
    let mut s = "\x1B[38;2;".to_string();
    s.append(i32_text(r).as_str());
    s.append(";");
    s.append(i32_text(g).as_str());
    s.append(";");
    s.append(i32_text(b).as_str());
    s.append("m");
    s.append(text);
    s.append("\x1B[0m");
    s
}

/// `text` wrapped in the escape sequences that colour it (`r`, `g`, `b`) on
/// a terminal.
pub fn colored(r: i32, g: i32, b: i32, text: &str) -> (s: String)
    ensures
        s@ == colored_spec(r as int, g as int, b as int, text@),
{
    colored_terminal_text(r, g, b, text)
}

/// The git remote URL under which the relay serves `repository_name` of the
/// user whose id has the text `user_id`.
pub fn create_git_remote_url(user_id: &str, repository_name: &str) -> (r: String)
    ensures
        r@ == HTTP_SERVER_ADDR@ + "/git/"@ + user_id@ + "/"@ + repository_name@,
{
    let mut s = HTTP_SERVER_ADDR.to_string();
    s.append("/git/");
    s.append(user_id);
    s.append("/");
    s.append(repository_name);
    s
}

/// One variable of the environment of `git-http-backend`.
pub type EnvVar = (String, String);

pub open spec fn env_view(v: Seq<EnvVar>) -> Seq<(Seq<char>, Seq<char>)> {
    v.map_values(|p: EnvVar| (p.0@, p.1@))
}

pub open spec fn optional_var(name: Seq<char>, value: Option<String>) -> Seq<(Seq<char>, Seq<char>)> {
    match value {
        Some(v) => seq![(name, v@)],
        None => seq![],
    }
}

/// The environment under which `git-http-backend` answers `request` for
/// repositories under `project_root`: the optional CGI variables where the
/// request has them, then the fixed ones; `PATH_INFO` gains its leading `/`.
pub open spec fn backend_env_spec(request: GitRequest, project_root: Seq<char>) -> Seq<(Seq<char>, Seq<char>)> {
    optional_var("QUERY_STRING"@, request.query_string) + optional_var(
        "CONTENT_LENGTH"@,
        request.content_length,
    ) + optional_var("CONTENT_TYPE"@, request.content_type) + seq![
        ("GIT_PROJECT_ROOT"@, project_root),
        ("GIT_HTTP_EXPORT_ALL"@, "1"@),
        ("PATH_INFO"@, "/"@ + request.path_info@),
        ("REQUEST_METHOD"@, request.required_method@),
    ]
}

fn push_var(env: &mut Vec<EnvVar>, name: &str, value: &str)
    ensures
        env_view(final(env)@) == env_view(old(env)@).push((name@, value@)),
{
    let ghost before = env@;
    env.push((name.to_string(), value.to_string()));
    assert(env_view(env@) =~= env_view(before).push((name@, value@)));
}

fn push_optional_var(env: &mut Vec<EnvVar>, name: &str, value: &Option<String>)
    ensures
        env_view(final(env)@) == env_view(old(env)@) + optional_var(name@, *value),
{
    match value {
        Some(v) => {
            push_var(env, name, v.as_str());
            assert(env_view(env@) =~= env_view(old(env)@) + optional_var(name@, *value));
        },
        None => {
            assert(env_view(env@) =~= env_view(old(env)@) + optional_var(name@, *value));
        },
    }
}

/// The environment variables to run `git-http-backend` with for `request`.
pub fn backend_env(request: &GitRequest, project_root: &str) -> (r: Vec<EnvVar>)
    ensures
        env_view(r@) == backend_env_spec(*request, project_root@),
{
    let mut env: Vec<EnvVar> = Vec::new();
    assert(env_view(env@) =~= seq![]);
    push_optional_var(&mut env, "QUERY_STRING", &request.query_string);
    push_optional_var(&mut env, "CONTENT_LENGTH", &request.content_length);
    push_optional_var(&mut env, "CONTENT_TYPE", &request.content_type);
    push_var(&mut env, "GIT_PROJECT_ROOT", project_root);
    push_var(&mut env, "GIT_HTTP_EXPORT_ALL", "1");
    let path = "/".to_string().concat(request.path_info.as_str());
    push_var(&mut env, "PATH_INFO", path.as_str());
    push_var(&mut env, "REQUEST_METHOD", request.required_method.as_str());
    assert(env_view(env@) =~= backend_env_spec(*request, project_root@));
    env
}

} // verus!
