use quarto_term::plan::{prompt_prefix, ps2_prefix};
use quarto_term::plan::{
    docker_run_args, prompt_pattern, prompt_patterns, ps2_pattern, pull_args, pull_step, shell_env,
    PullStep,
};
use quarto_term::protocol::DockerConfig;

fn docker(image: &str) -> DockerConfig {
    DockerConfig {
        image: image.to_string(),
        pull: "missing".to_string(),
        platform: None,
        workdir: None,
        user: None,
        network: None,
        memory: None,
        cpus: None,
        name: None,
        ports: Vec::new(),
        volumes: Vec::new(),
        env: Vec::new(),
        args: Vec::new(),
    }
}

fn owned(v: &[&str]) -> Vec<String> {
    v.iter().map(|s| s.to_string()).collect()
}

#[test]
fn prompt_pattern_escapes_prompt() {
    assert_eq!(prompt_pattern(None, "$"), "\\$\\s*$");
    assert_eq!(prompt_pattern(None, "my-shell>"), "my\\-shell>\\s*$");
}

#[test]
fn prompt_pattern_uses_given_regex() {
    assert_eq!(prompt_pattern(Some("^>>> $"), "$"), "^>>> $");
}

#[test]
fn ps2_pattern_trims_and_anchors() {
    assert_eq!(ps2_pattern(None, Some("> ")).as_deref(), Some("^>\\s*$"));
    assert_eq!(ps2_pattern(None, Some("... ")).as_deref(), Some("^\\.\\.\\.\\s*$"));
    assert_eq!(ps2_pattern(Some("^cont"), Some("> ")).as_deref(), Some("^cont"));
    assert_eq!(ps2_pattern(None, None), None);
}

#[test]
fn prompt_patterns_compile() {
    let p = prompt_patterns(None, "$", None, Some("> ")).unwrap();
    assert_eq!(p.prompt, "\\$\\s*$");
    assert_eq!(p.ps2.as_deref(), Some("^>\\s*$"));
}

#[test]
fn prompt_patterns_report_bad_regex() {
    assert!(prompt_patterns(Some("("), "$", None, None).is_err());
    assert!(prompt_patterns(None, "$", Some("[z-a]"), None).is_err());
}

#[test]
fn docker_run_args_minimal() {
    let d = docker("ubuntu");
    let args = docker_run_args(&d, &[], "bash", &[]);
    assert_eq!(
        args,
        owned(&[
            "run", "--rm", "-i", "-t", "--env", "TERM=xterm-256color", "--env", "COLORTERM=truecolor",
            "--env", "LC_ALL=en_US.UTF-8", "ubuntu", "bash",
        ])
    );
}

#[test]
fn docker_run_args_full() {
    let mut d = docker("ubuntu:24.04");
    d.platform = Some("linux/amd64".to_string());
    d.name = Some("demo".to_string());
    d.workdir = Some("/w".to_string());
    d.user = Some("1000".to_string());
    d.network = Some("none".to_string());
    d.memory = Some("1g".to_string());
    d.cpus = Some("2".to_string());
    d.ports = owned(&["8080:80"]);
    d.volumes = owned(&["/tmp:/tmp"]);
    d.env = vec![("A".to_string(), "1".to_string())];
    d.args = owned(&["--init"]);
    let env = vec![("B".to_string(), "2".to_string())];
    let args = docker_run_args(&d, &env, "zsh", &owned(&["--no-rcs"]));
    assert_eq!(
        args,
        owned(&[
            "run", "--rm", "-i", "-t", "--platform", "linux/amd64", "--name", "demo", "--workdir", "/w",
            "--user", "1000", "--network", "none", "--memory", "1g", "--cpus", "2", "-p", "8080:80",
            "-v", "/tmp:/tmp", "--env", "A=1", "--env", "B=2", "--env", "TERM=xterm-256color",
            "--env", "COLORTERM=truecolor", "--env", "LC_ALL=en_US.UTF-8", "--init", "ubuntu:24.04",
            "zsh", "--no-rcs",
        ])
    );
}

#[test]
fn shell_env_puts_terminal_settings_first() {
    let env = shell_env(&[("X".to_string(), "y".to_string())]);
    let expected: Vec<(String, String)> = vec![
        ("TERM".to_string(), "xterm-256color".to_string()),
        ("COLORTERM".to_string(), "truecolor".to_string()),
        ("LC_ALL".to_string(), "en_US.UTF-8".to_string()),
        ("X".to_string(), "y".to_string()),
    ];
    assert_eq!(env, expected);
}

#[test]
fn pull_policies() {
    assert_eq!(pull_step("never"), PullStep::Skip);
    assert_eq!(pull_step("always"), PullStep::Pull);
    assert_eq!(pull_step("missing"), PullStep::PullIfMissing);
    assert_eq!(pull_step("Never"), PullStep::PullIfMissing);
}

#[test]
fn pull_args_with_platform() {
    let mut d = docker("alpine");
    assert_eq!(pull_args(&d), owned(&["pull", "alpine"]));
    d.platform = Some("linux/arm64".to_string());
    assert_eq!(pull_args(&d), owned(&["pull", "--platform", "linux/arm64", "alpine"]));
}

#[test]
fn prompt_prefix_patterns() {
    assert_eq!(prompt_prefix(None, "$"), "^\\$\\s?");
    assert_eq!(prompt_prefix(Some("^\\[.*\\]\\$ $$"), "$"), "^(?:^\\[.*\\]\\$ )");
    // a regex whose prefix form does not compile falls back to the prompt
    assert_eq!(prompt_prefix(Some("(a$"), ">"), "^>\\s?");
    assert_eq!(ps2_prefix(None, Some("... ")).as_deref(), Some("^\\.\\.\\.\\s?"));
    assert_eq!(ps2_prefix(Some("(x$"), None), None);
    assert_eq!(ps2_prefix(None, None), None);
    let p = prompt_patterns(None, "$", None, Some("> ")).unwrap();
    assert_eq!(p.prompt_prefix, "^\\$\\s?");
    assert_eq!(p.ps2_prefix.as_deref(), Some("^>\\s?"));
}
