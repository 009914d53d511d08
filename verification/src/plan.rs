//! What a session decides around its I/O: the patterns that recognise the
//! prompts, the command that starts the shell (directly or in a
//! container), and the environment the shell gets.
use vstd::prelude::*;
use crate::pattern::{escaped_char, regex_error, regex_error_text, regex_escape, regex_valid};
use crate::protocol::DockerConfig;
use crate::text::{flat_map, strings_view, trim_end_char, trim_end_char_str, trim_end_seq, trim_end_str};

verus! {

/// The pattern for the primary prompt at the end of a line: the configured
/// regular expression, or the prompt string, escaped, then optional
/// whitespace up to the end.
pub open spec fn spec_prompt_pattern(prompt_regex: Option<Seq<char>>, prompt: Seq<char>) -> Seq<
    char,
> {
    match prompt_regex {
        Some(re) => re,
        None => flat_map(prompt, |c: char| escaped_char(c)) + "\\s*$"@,
    }
}

/// The pattern for the continuation prompt, if there is one: the configured
/// regular expression, or the continuation prompt without its trailing
/// whitespace, escaped and anchored to the whole line.
pub open spec fn spec_ps2_pattern(ps2_regex: Option<Seq<char>>, ps2: Option<Seq<char>>) -> Option<
    Seq<char>,
> {
    match ps2_regex {
        Some(re) => Some(re),
        None => match ps2 {
            Some(s) => Some("^"@ + flat_map(trim_end_seq(s), |c: char| escaped_char(c)) + "\\s*$"@),
            None => None,
        },
    }
}

/// The primary-prompt pattern for the configured prompt or regular
/// expression.
pub fn prompt_pattern(prompt_regex: Option<&str>, prompt: &str) -> (r: String)
    ensures
        r@ == spec_prompt_pattern(
            match prompt_regex {
                Some(s) => Some(s@),
                None => None,
            },
            prompt@,
        ),
{
    match prompt_regex {
        Some(re) => re.to_owned(),
        None => {
            let mut p = regex_escape(prompt);
            p.append("\\s*$");
            p
        },
    }
}

/// The continuation-prompt pattern, if any.
pub fn ps2_pattern(ps2_regex: Option<&str>, ps2: Option<&str>) -> (r: Option<String>)
    ensures
        match spec_ps2_pattern(
            match ps2_regex {
                Some(s) => Some(s@),
                None => None,
            },
            match ps2 {
                Some(s) => Some(s@),
                None => None,
            },
        ) {
            Some(p) => r matches Some(x) && x@ == p,
            None => r is None,
        },
{
    match ps2_regex {
        Some(re) => Some(re.to_owned()),
        None => match ps2 {
            Some(s) => {
                let trimmed = trim_end_str(s);
                let mut p = String::new();
                p.append("^");
                let escaped = regex_escape(trimmed.as_str());
                p.append(escaped.as_str());
                p.append("\\s*$");
                Some(p)
            },
            None => None,
        },
    }
}

/// The prefix pattern of a prompt written as a regular expression: the
/// expression without its trailing `$`s, anchored at the line start.
pub open spec fn regex_prefix(re: Seq<char>) -> Seq<char> {
    "^(?:"@ + trim_end_char(re, '$') + ")"@
}

/// The prefix pattern of a literal prompt: the prompt, escaped, at the line
/// start, with one optional whitespace after it.
pub open spec fn escaped_prefix(prompt: Seq<char>) -> Seq<char> {
    "^"@ + flat_map(prompt, |c: char| escaped_char(c)) + "\\s?"@
}

/// The pattern that finds the primary prompt at the start of a line: the
/// one derived from the configuration when it compiles, else the one of
/// the literal prompt.
pub open spec fn spec_prompt_prefix(prompt_regex: Option<Seq<char>>, prompt: Seq<char>) -> Seq<
    char,
> {
    let p = match prompt_regex {
        Some(re) => regex_prefix(re),
        None => escaped_prefix(prompt),
    };
    if regex_valid(p) {
        p
    } else {
        escaped_prefix(prompt)
    }
}

/// The pattern that finds the continuation prompt at the start of a line,
/// if one is configured and its pattern compiles.
pub open spec fn spec_ps2_prefix(ps2_regex: Option<Seq<char>>, ps2: Option<Seq<char>>) -> Option<
    Seq<char>,
> {
    let cand = match ps2_regex {
        Some(re) => Some(regex_prefix(re)),
        None => match ps2 {
            Some(s) => Some(escaped_prefix(trim_end_seq(s))),
            None => None,
        },
    };
    match cand {
        Some(x) => if regex_valid(x) {
            Some(x)
        } else {
            None
        },
        None => None,
    }
}

fn regex_prefix_of(re: &str) -> (r: String)
    ensures
        r@ == regex_prefix(re@),
{
    let mut r = String::new();
    r.append("^(?:");
    let t = trim_end_char_str(re, '$');
    r.append(t.as_str());
    r.append(")");
    r
}

fn escaped_prefix_of(prompt: &str) -> (r: String)
    ensures
        r@ == escaped_prefix(prompt@),
{
    let mut r = String::new();
    r.append("^");
    let e = regex_escape(prompt);
    r.append(e.as_str());
    r.append("\\s?");
    r
}

/// The primary-prompt prefix pattern.
pub fn prompt_prefix(prompt_regex: Option<&str>, prompt: &str) -> (r: String)
    ensures
        r@ == spec_prompt_prefix(
            match prompt_regex {
                Some(s) => Some(s@),
                None => None,
            },
            prompt@,
        ),
{
    let p = match prompt_regex {
        Some(re) => regex_prefix_of(re),
        None => escaped_prefix_of(prompt),
    };
    if regex_error(p.as_str()).is_none() {
        p
    } else {
        escaped_prefix_of(prompt)
    }
}

/// The continuation-prompt prefix pattern, if any.
pub fn ps2_prefix(ps2_regex: Option<&str>, ps2: Option<&str>) -> (r: Option<String>)
    ensures
        match spec_ps2_prefix(
            match ps2_regex {
                Some(s) => Some(s@),
                None => None,
            },
            match ps2 {
                Some(s) => Some(s@),
                None => None,
            },
        ) {
            Some(p) => r matches Some(x) && x@ == p,
            None => r is None,
        },
{
    let cand = match ps2_regex {
        Some(re) => Some(regex_prefix_of(re)),
        None => match ps2 {
            Some(s) => {
                let t = trim_end_str(s);
                Some(escaped_prefix_of(t.as_str()))
            },
            None => None,
        },
    };
    match cand {
        Some(x) => if regex_error(x.as_str()).is_none() {
            Some(x)
        } else {
            None
        },
        None => None,
    }
}

/// The patterns a session waits for and marks: the primary prompt and,
/// when one is configured, the continuation prompt, each at the end of a
/// line and as a line prefix.
pub struct PromptPatterns {
    pub prompt: String,
    pub ps2: Option<String>,
    pub prompt_prefix: String,
    pub ps2_prefix: Option<String>,
}

/// Builds the prompt patterns and checks that they compile. The error is
/// the `regex` crate's message for the first pattern (primary first) that
/// does not compile.
pub fn prompt_patterns(
    prompt_regex: Option<&str>,
    prompt: &str,
    ps2_regex: Option<&str>,
    ps2: Option<&str>,
) -> (r: Result<PromptPatterns, String>)
    ensures
        ({
            let p = spec_prompt_pattern(
                match prompt_regex {
                    Some(s) => Some(s@),
                    None => None,
                },
                prompt@,
            );
            let q = spec_ps2_pattern(
                match ps2_regex {
                    Some(s) => Some(s@),
                    None => None,
                },
                match ps2 {
                    Some(s) => Some(s@),
                    None => None,
                },
            );
            if !regex_valid(p) {
                r matches Err(m) && m@ == regex_error_text(p)
            } else if q is Some && !regex_valid(q->0) {
                r matches Err(m) && m@ == regex_error_text(q->0)
            } else {
                r matches Ok(pp) && pp.prompt@ == p && match q {
                    Some(x) => pp.ps2 matches Some(y) && y@ == x,
                    None => pp.ps2 is None,
                } && pp.prompt_prefix@ == spec_prompt_prefix(
                    match prompt_regex {
                        Some(s) => Some(s@),
                        None => None,
                    },
                    prompt@,
                ) && match spec_ps2_prefix(
                    match ps2_regex {
                        Some(s) => Some(s@),
                        None => None,
                    },
                    match ps2 {
                        Some(s) => Some(s@),
                        None => None,
                    },
                ) {
                    Some(x) => pp.ps2_prefix matches Some(y) && y@ == x,
                    None => pp.ps2_prefix is None,
                }
            }
        }),
{
    let p = prompt_pattern(prompt_regex, prompt);
    if let Some(m) = regex_error(p.as_str()) {
        return Err(m);
    }
    let q = ps2_pattern(ps2_regex, ps2);
    if let Some(qs) = &q {
        if let Some(m) = regex_error(qs.as_str()) {
            return Err(m);
        }
    }
    let pp = prompt_prefix(prompt_regex, prompt);
    let qp = ps2_prefix(ps2_regex, ps2);
    Ok(PromptPatterns { prompt: p, ps2: q, prompt_prefix: pp, ps2_prefix: qp })
}

/// `flag value` for each value, in order.
pub open spec fn flag_pairs(flag: Seq<char>, vs: Seq<Seq<char>>) -> Seq<Seq<char>>
    decreases vs.len(),
{
    if vs.len() == 0 {
        Seq::empty()
    } else {
        flag_pairs(flag, vs.drop_last()) + seq![flag, vs.last()]
    }
}

/// `flag value` when the option is set; nothing otherwise.
pub open spec fn opt_flag(flag: Seq<char>, v: Option<String>) -> Seq<Seq<char>> {
    match v {
        Some(x) => seq![flag, x@],
        None => Seq::empty(),
    }
}

/// `key=value` for each environment entry, in order.
pub open spec fn env_assignments(env: Seq<(String, String)>) -> Seq<Seq<char>> {
    env.map_values(|kv: (String, String)| kv.0@ + "="@ + kv.1@)
}

/// The terminal settings every shell gets, as `key=value`.
pub open spec fn terminal_env_assignments() -> Seq<Seq<char>> {
    seq!["TERM=xterm-256color"@, "COLORTERM=truecolor"@, "LC_ALL=en_US.UTF-8"@]
}

/// The arguments of `docker` that run the shell in a fresh, interactive,
/// self-removing container: the container options, the environment (the
/// container's, the session's, then the terminal settings), the extra
/// arguments, the image, and the shell command.
pub open spec fn spec_docker_run_args(
    d: DockerConfig,
    env: Seq<(String, String)>,
    shell: Seq<char>,
    shell_args: Seq<Seq<char>>,
) -> Seq<Seq<char>> {
    seq!["run"@, "--rm"@, "-i"@, "-t"@] + opt_flag("--platform"@, d.platform) + opt_flag(
        "--name"@,
        d.name,
    ) + opt_flag("--workdir"@, d.workdir) + opt_flag("--user"@, d.user) + opt_flag(
        "--network"@,
        d.network,
    ) + opt_flag("--memory"@, d.memory) + opt_flag("--cpus"@, d.cpus) + flag_pairs(
        "-p"@,
        strings_view(d.ports@),
    ) + flag_pairs("-v"@, strings_view(d.volumes@)) + flag_pairs(
        "--env"@,
        env_assignments(d.env@),
    ) + flag_pairs("--env"@, env_assignments(env)) + flag_pairs(
        "--env"@,
        terminal_env_assignments(),
    ) + strings_view(d.args@) + seq![d.image@, shell] + shell_args
}

fn push_str(v: &mut Vec<String>, s: &str)
    ensures
        strings_view(final(v)@) == strings_view(old(v)@).push(s@),
{
    let ghost before = strings_view(v@);
    v.push(s.to_owned());
    assert(strings_view(v@) =~= before.push(s@));
}

fn push_opt_flag(v: &mut Vec<String>, flag: &str, o: &Option<String>)
    ensures
        strings_view(final(v)@) == strings_view(old(v)@) + opt_flag(flag@, *o),
{
    let ghost before = strings_view(v@);
    match o {
        Some(x) => {
            push_str(v, flag);
            push_str(v, x.as_str());
            assert(strings_view(v@) =~= before + opt_flag(flag@, *o));
        },
        None => {
            assert(strings_view(v@) =~= before + opt_flag(flag@, *o));
        },
    }
}

fn push_flag_pairs(v: &mut Vec<String>, flag: &str, vs: &Vec<String>)
    ensures
        strings_view(final(v)@) == strings_view(old(v)@) + flag_pairs(flag@, strings_view(vs@)),
{
    let ghost before = strings_view(v@);
    let ghost vv = strings_view(vs@);
    let mut i: usize = 0;
    while i < vs.len()
        invariant
            i <= vs.len(),
            vv == strings_view(vs@),
            strings_view(v@) == before + flag_pairs(flag@, vv.take(i as int)),
        decreases vs.len() - i,
    {
        push_str(v, flag);
        push_str(v, vs[i].as_str());
        assert(vv.take(i + 1).drop_last() =~= vv.take(i as int));
        assert(strings_view(v@) =~= before + flag_pairs(flag@, vv.take(i + 1)));
        i += 1;
    }
    assert(vv.take(vs.len() as int) =~= vv);
}

fn push_env(v: &mut Vec<String>, env: &[(String, String)])
    ensures
        strings_view(final(v)@) == strings_view(old(v)@) + flag_pairs(
            "--env"@,
            env_assignments(env@),
        ),
{
    let ghost before = strings_view(v@);
    let ghost ev = env_assignments(env@);
    let mut i: usize = 0;
    while i < env.len()
        invariant
            i <= env.len(),
            ev == env_assignments(env@),
            strings_view(v@) == before + flag_pairs("--env"@, ev.take(i as int)),
        decreases env.len() - i,
    {
        let mut kv = String::new();
        kv.append(env[i].0.as_str());
        kv.append("=");
        kv.append(env[i].1.as_str());
        push_str(v, "--env");
        push_str(v, kv.as_str());
        assert(ev.take(i + 1).drop_last() =~= ev.take(i as int));
        assert(strings_view(v@) =~= before + flag_pairs("--env"@, ev.take(i + 1)));
        i += 1;
    }
    assert(ev.take(env.len() as int) =~= ev);
}

fn push_all(v: &mut Vec<String>, xs: &[String])
    ensures
        strings_view(final(v)@) == strings_view(old(v)@) + strings_view(xs@),
{
    let ghost before = strings_view(v@);
    let ghost xv = strings_view(xs@);
    let mut i: usize = 0;
    while i < xs.len()
        invariant
            i <= xs.len(),
            xv == strings_view(xs@),
            strings_view(v@) == before + xv.take(i as int),
        decreases xs.len() - i,
    {
        push_str(v, xs[i].as_str());
        assert(strings_view(v@) =~= before + xv.take(i + 1));
        i += 1;
    }
    assert(xv.take(xs.len() as int) =~= xv);
}

/// The arguments of `docker` that start the session's shell in a container.
pub fn docker_run_args(
    d: &DockerConfig,
    env: &[(String, String)],
    shell: &str,
    shell_args: &[String],
) -> (r: Vec<String>)
    ensures
        strings_view(r@) == spec_docker_run_args(*d, env@, shell@, strings_view(shell_args@)),
{
    let mut v: Vec<String> = Vec::new();
    push_str(&mut v, "run");
    push_str(&mut v, "--rm");
    push_str(&mut v, "-i");
    push_str(&mut v, "-t");
    assert(strings_view(v@) =~= seq!["run"@, "--rm"@, "-i"@, "-t"@]);
    push_opt_flag(&mut v, "--platform", &d.platform);
    push_opt_flag(&mut v, "--name", &d.name);
    push_opt_flag(&mut v, "--workdir", &d.workdir);
    push_opt_flag(&mut v, "--user", &d.user);
    push_opt_flag(&mut v, "--network", &d.network);
    push_opt_flag(&mut v, "--memory", &d.memory);
    push_opt_flag(&mut v, "--cpus", &d.cpus);
    push_flag_pairs(&mut v, "-p", &d.ports);
    push_flag_pairs(&mut v, "-v", &d.volumes);
    push_env(&mut v, d.env.as_slice());
    push_env(&mut v, env);
    let ghost before = strings_view(v@);
    push_str(&mut v, "--env");
    push_str(&mut v, "TERM=xterm-256color");
    push_str(&mut v, "--env");
    push_str(&mut v, "COLORTERM=truecolor");
    push_str(&mut v, "--env");
    push_str(&mut v, "LC_ALL=en_US.UTF-8");
    proof {
        let t = terminal_env_assignments();
        reveal_with_fuel(flag_pairs, 4);
        assert(t.drop_last() =~= seq!["TERM=xterm-256color"@, "COLORTERM=truecolor"@]);
        assert(t.drop_last().drop_last() =~= seq!["TERM=xterm-256color"@]);
        assert(t.drop_last().drop_last().drop_last() =~= Seq::<Seq<char>>::empty());
        assert(flag_pairs("--env"@, t) =~= seq![
            "--env"@,
            "TERM=xterm-256color"@,
            "--env"@,
            "COLORTERM=truecolor"@,
            "--env"@,
            "LC_ALL=en_US.UTF-8"@,
        ]);
        assert(strings_view(v@) =~= before + flag_pairs("--env"@, t));
    }
    push_all(&mut v, d.args.as_slice());
    push_str(&mut v, d.image.as_str());
    push_str(&mut v, shell);
    push_all(&mut v, shell_args);
    proof {
        let full = spec_docker_run_args(*d, env@, shell@, strings_view(shell_args@));
        assert(strings_view(v@) =~= full);
    }
    v
}

/// The pairs as character sequences.
pub open spec fn pairs_view(v: Seq<(String, String)>) -> Seq<(Seq<char>, Seq<char>)> {
    v.map_values(|kv: (String, String)| (kv.0@, kv.1@))
}

/// The environment of a shell started directly: the terminal settings,
/// then the session's own variables (which may override them).
pub open spec fn spec_shell_env(env: Seq<(String, String)>) -> Seq<(Seq<char>, Seq<char>)> {
    seq![
        ("TERM"@, "xterm-256color"@),
        ("COLORTERM"@, "truecolor"@),
        ("LC_ALL"@, "en_US.UTF-8"@),
    ] + pairs_view(env)
}

fn push_pair(v: &mut Vec<(String, String)>, k: &str, x: &str)
    ensures
        pairs_view(final(v)@) == pairs_view(old(v)@).push((k@, x@)),
{
    let ghost before = pairs_view(v@);
    v.push((k.to_owned(), x.to_owned()));
    assert(pairs_view(v@) =~= before.push((k@, x@)));
}

/// The environment variables, in the order they are set, of a shell
/// started directly.
pub fn shell_env(env: &[(String, String)]) -> (r: Vec<(String, String)>)
    ensures
        pairs_view(r@) == spec_shell_env(env@),
{
    let mut v: Vec<(String, String)> = Vec::new();
    push_pair(&mut v, "TERM", "xterm-256color");
    push_pair(&mut v, "COLORTERM", "truecolor");
    push_pair(&mut v, "LC_ALL", "en_US.UTF-8");
    let ghost before = pairs_view(v@);
    let ghost ev = pairs_view(env@);
    let mut i: usize = 0;
    while i < env.len()
        invariant
            i <= env.len(),
            ev == pairs_view(env@),
            pairs_view(v@) == before + ev.take(i as int),
        decreases env.len() - i,
    {
        push_pair(&mut v, env[i].0.as_str(), env[i].1.as_str());
        assert(pairs_view(v@) =~= before + ev.take(i + 1));
        i += 1;
    }
    assert(ev.take(env.len() as int) =~= ev);
    assert(pairs_view(v@) =~= spec_shell_env(env@));
    v
}

/// What to do about the image before the container starts.
#[derive(PartialEq, Eq, Structural, Debug, Clone, Copy)]
pub enum PullStep {
    /// Use the local image as it is (`never`).
    Skip,
    /// Pull the image (`always`).
    Pull,
    /// Pull only when `docker image inspect` does not find it (any other
    /// policy, `missing` by default).
    PullIfMissing,
}

/// The step a pull policy calls for.
pub open spec fn spec_pull_step(policy: Seq<char>) -> PullStep {
    if policy == seq!['n', 'e', 'v', 'e', 'r'] {
        PullStep::Skip
    } else if policy == seq!['a', 'l', 'w', 'a', 'y', 's'] {
        PullStep::Pull
    } else {
        PullStep::PullIfMissing
    }
}

/// The step the image pull policy calls for.
pub fn pull_step(policy: &str) -> (r: PullStep)
    ensures
        r == spec_pull_step(policy@),
{
    let p = crate::text::str_chars(policy);
    if crate::keymap::eq_chars(&p, &['n', 'e', 'v', 'e', 'r']) {
        PullStep::Skip
    } else if crate::keymap::eq_chars(&p, &['a', 'l', 'w', 'a', 'y', 's']) {
        PullStep::Pull
    } else {
        PullStep::PullIfMissing
    }
}

/// The arguments of `docker` that pull the image (for the platform, when
/// one is set).
pub fn pull_args(d: &DockerConfig) -> (r: Vec<String>)
    ensures
        strings_view(r@) == seq!["pull"@] + opt_flag("--platform"@, d.platform) + seq![d.image@],
{
    let mut v: Vec<String> = Vec::new();
    push_str(&mut v, "pull");
    assert(strings_view(v@) =~= seq!["pull"@]);
    push_opt_flag(&mut v, "--platform", &d.platform);
    push_str(&mut v, d.image.as_str());
    v
}

} // verus!
