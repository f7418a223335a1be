//! Experiments: a task with one thread count, its argument templates filled
//! in, ready to be run.

use vstd::prelude::*;
use vstd::string::*;
use std::collections::BTreeMap;
use handlebars::Handlebars;
use handlebars::RenderError;
use crate::common::Task;
use crate::number::{decimal, to_decimal};
use crate::text::{pair_texts, to_chars};

verus! {

/// The error of the template engine.
#[verifier::external_type_specification]
#[verifier::external_body]
pub struct ExRenderError(RenderError);

/// Whether `c` can stand between the braces that open a tag and the sign
/// that makes the tag include a partial: a blank, a tab, a line feed, a
/// carriage return, `~` or `#`.
pub open spec fn is_tag_filler(c: char) -> bool {
    c == ' ' || c == '\t' || c == '\n' || c == '\r' || c == '~' || c == '#'
}

/// Whether every character of `t` from `from` up to `to` can stand before
/// the sign of a partial.
pub open spec fn all_filler(t: Seq<char>, from: int, to: int) -> bool {
    forall|k: int| from <= k < to ==> is_tag_filler(#[trigger] t[k])
}

/// Whether the tag that opens at `i` includes a partial with the sign at
/// `j`: two opening braces at `i`, then nothing but filler, then `>` at `j`.
pub open spec fn partial_sign_at(t: Seq<char>, i: int, j: int) -> bool {
    &&& 0 <= i
    &&& i + 2 <= j < t.len()
    &&& t[i] == '{'
    &&& t[i + 1] == '{'
    &&& t[j] == '>'
    &&& all_filler(t, i + 2, j)
}

/// Whether a template includes a partial, that is another template by its
/// name.
pub open spec fn includes_partial(t: Seq<char>) -> bool {
    exists|i: int, j: int| partial_sign_at(t, i, j)
}

/// Tells whether a template includes a partial.
pub fn has_partial(template: &str) -> (b: bool)
    ensures
        b == includes_partial(template@),
{
    let chars = to_chars(template);
    let n = chars.len();
    let mut i: usize = 0;
    while i < n
        invariant
            n == chars@.len(),
            chars@ == template@,
            i <= n,
            forall|a: int, j: int| 0 <= a < i ==> !partial_sign_at(chars@, a, j),
        decreases n - i,
    {
        if chars[i] == '{' && i + 1 < n && chars[i + 1] == '{' {
            let mut j: usize = i + 2;
            while j < n && is_filler(chars[j])
                invariant
                    n == chars@.len(),
                    i + 2 <= j <= n,
                    all_filler(chars@, i + 2, j as int),
                decreases n - j,
            {
                j = j + 1;
            }
            if j < n && chars[j] == '>' {
                assert(partial_sign_at(chars@, i as int, j as int));
                return true;
            }
            assert forall|k: int| !partial_sign_at(chars@, i as int, k) by {
                if partial_sign_at(chars@, i as int, k) {
                    if k < j {
                        assert(is_tag_filler(chars@[k]));
                    } else if k > j {
                        assert(is_tag_filler(chars@[j as int]));
                    }
                }
            }
        }
        i = i + 1;
    }
    assert forall|a: int, j: int| !partial_sign_at(chars@, a, j) by {
        if partial_sign_at(chars@, a, j) {
            assert(a < i);
        }
    }
    false
}

/// Tests a character for filler.
fn is_filler(c: char) -> (b: bool)
    ensures
        b == is_tag_filler(c),
{
    c == ' ' || c == '\t' || c == '\n' || c == '\r' || c == '~' || c == '#'
}

/// What the template engine makes of a template when the variables of
/// `context`, each a name with its value, are at hand: the text, or `None`
/// where the template cannot be rendered.
pub uninterp spec fn rendered(template: Seq<char>, context: Seq<(Seq<char>, Seq<char>)>) -> Option<
    Seq<char>,
>;

/// Renders a template with the variables of `context`.
///
/// Trusted: wraps `Handlebars::render_template` of the `handlebars` crate,
/// called on a fresh registry with the context as a map from names to
/// values. A template that includes a partial is kept out, since one that
/// includes itself makes the engine go on without end. For the others the
/// contract claims only that the outcome is a function of the template and
/// the context, which it names `rendered`: the text on success, `None` on an
/// error.
#[verifier::external_body]
fn render_template(template: &str, context: &Vec<(String, String)>) -> (r: Result<
    String,
    RenderError,
>)
    requires
        !includes_partial(template@),
    ensures
        match r {
            Ok(text) => rendered(template@, pair_texts(context@)) == Some(text@),
            Err(_) => rendered(template@, pair_texts(context@)) is None,
        },
{
    let data: BTreeMap<String, String> = context.iter().cloned().collect();
    Handlebars::new().render_template(template, &data)
}

/// Why a template has no rendering.
#[derive(Clone, Copy, Debug, PartialEq, Eq, Structural)]
pub enum TemplateFault {
    /// The template includes a partial, which no template of a task may do.
    IncludesPartial,
    /// The template engine cannot render the template.
    CannotRender,
}

/// The rendering of a template with the variables of `context`, or the
/// reason why it has none. A template that includes a partial is not handed
/// to the template engine.
pub open spec fn template_outcome(
    template: Seq<char>,
    context: Seq<(Seq<char>, Seq<char>)>,
) -> Result<Seq<char>, TemplateFault> {
    if includes_partial(template) {
        Err(TemplateFault::IncludesPartial)
    } else {
        match rendered(template, context) {
            Some(text) => Ok(text),
            None => Err(TemplateFault::CannotRender),
        }
    }
}

/// Renders a template with the variables of `context`.
pub fn render(template: &str, context: &Vec<(String, String)>) -> (r: Result<String, TemplateFault>)
    ensures
        match r {
            Ok(text) => template_outcome(template@, pair_texts(context@)) == Ok::<
                Seq<char>,
                TemplateFault,
            >(text@),
            Err(fault) => template_outcome(template@, pair_texts(context@)) == Err::<
                Seq<char>,
                TemplateFault,
            >(fault),
        },
{
    if has_partial(template) {
        return Err(TemplateFault::IncludesPartial);
    }
    match render_template(template, context) {
        Ok(text) => Ok(text),
        Err(_) => Err(TemplateFault::CannotRender),
    }
}

/// A task with one thread count, ready to be run.
pub struct ExperimentConfig {
    /// The path of the program.
    pub program: String,
    /// The program's arguments.
    pub args: Vec<String>,
    /// A program to run before each sample, with its arguments.
    pub pre_run: Option<(String, Vec<String>)>,
    /// A program to run after each sample, with its arguments.
    pub post_run: Option<(String, Vec<String>)>,
    /// The directory that receives the results.
    pub output_path: String,
    /// Variables to set in the program's environment.
    pub env: Option<Vec<(String, String)>>,
}

/// The part of a task in which a template stands.
#[derive(Clone, Copy, Debug, PartialEq, Eq, Structural)]
pub enum TemplatePart {
    Args,
    PreRunArgs,
    PostRunArgs,
    Env,
}

/// Why a list of templates has no rendering: the template at position
/// `index` has none, for the reason `fault`.
#[derive(Clone, Copy, Debug, PartialEq, Eq, Structural)]
pub struct RenderFailure {
    pub index: usize,
    pub fault: TemplateFault,
}

/// Why a task could not be made into an experiment: the template at
/// position `index` of `part` has no rendering, for the reason `fault`.
#[derive(Clone, Copy, Debug, PartialEq, Eq, Structural)]
pub struct BuildError {
    pub part: TemplatePart,
    pub index: usize,
    pub fault: TemplateFault,
}

/// The variables that the templates of a task can use: the thread count as
/// `num_threads` and the storage directory as `output_directory`.
pub open spec fn template_context(threads: usize, storage_path: Seq<char>) -> Seq<
    (Seq<char>, Seq<char>),
> {
    seq![("num_threads"@, decimal(threads as nat)), ("output_directory"@, storage_path)]
}

/// Whether `out` holds the renderings of `templates`, one for one.
pub open spec fn renders_to(
    templates: Seq<String>,
    context: Seq<(Seq<char>, Seq<char>)>,
    out: Seq<String>,
) -> bool {
    &&& out.len() == templates.len()
    &&& forall|i: int|
        0 <= i < templates.len() ==> template_outcome((#[trigger] templates[i])@, context) == Ok::<
            Seq<char>,
            TemplateFault,
        >(out[i]@)
}

/// Whether the first template without a rendering is the one at position
/// `index`, and `fault` the reason why it has none.
pub open spec fn fails_at(
    templates: Seq<String>,
    context: Seq<(Seq<char>, Seq<char>)>,
    index: int,
    fault: TemplateFault,
) -> bool {
    &&& 0 <= index < templates.len()
    &&& template_outcome(templates[index]@, context) == Err::<Seq<char>, TemplateFault>(fault)
    &&& forall|i: int|
        0 <= i < index ==> template_outcome((#[trigger] templates[i])@, context) is Ok
}

/// Whether every template has a rendering.
pub open spec fn all_render(templates: Seq<String>, context: Seq<(Seq<char>, Seq<char>)>) -> bool {
    forall|i: int|
        0 <= i < templates.len() ==> template_outcome((#[trigger] templates[i])@, context) is Ok
}

/// The values of a sequence of variables.
pub open spec fn values_of(env: Seq<(String, String)>) -> Seq<String> {
    env.map_values(|p: (String, String)| p.1)
}

/// Whether `out` holds the variables of `env` with their values rendered.
pub open spec fn env_renders_to(
    env: Seq<(String, String)>,
    context: Seq<(Seq<char>, Seq<char>)>,
    out: Seq<(String, String)>,
) -> bool {
    &&& renders_to(values_of(env), context, values_of(out))
    &&& forall|i: int| 0 <= i < env.len() ==> (#[trigger] out[i]).0@ == env[i].0@
}

/// Renders each template of a list. The error names the first template
/// without a rendering.
pub fn render_all(templates: &Vec<String>, context: &Vec<(String, String)>) -> (r: Result<
    Vec<String>,
    RenderFailure,
>)
    ensures
        match r {
            Ok(out) => renders_to(templates@, pair_texts(context@), out@),
            Err(failure) => fails_at(
                templates@,
                pair_texts(context@),
                failure.index as int,
                failure.fault,
            ),
        },
{
    let mut out: Vec<String> = Vec::new();
    let mut i: usize = 0;
    while i < templates.len()
        invariant
            i <= templates@.len(),
            out@.len() == i,
            forall|k: int|
                0 <= k < i ==> template_outcome(
                    (#[trigger] templates@[k])@,
                    pair_texts(context@),
                ) == Ok::<Seq<char>, TemplateFault>(out@[k]@),
        decreases templates@.len() - i,
    {
        match render(templates[i].as_str(), context) {
            Ok(text) => {
                out.push(text);
            },
            Err(fault) => {
                return Err(RenderFailure { index: i, fault });
            },
        }
        i = i + 1;
    }
    Ok(out)
}

/// Renders the value of each variable of a list. The error names the first
/// value without a rendering.
pub fn render_env(env: &Vec<(String, String)>, context: &Vec<(String, String)>) -> (r: Result<
    Vec<(String, String)>,
    RenderFailure,
>)
    ensures
        match r {
            Ok(out) => env_renders_to(env@, pair_texts(context@), out@),
            Err(failure) => fails_at(
                values_of(env@),
                pair_texts(context@),
                failure.index as int,
                failure.fault,
            ),
        },
{
    let mut out: Vec<(String, String)> = Vec::new();
    let mut i: usize = 0;
    while i < env.len()
        invariant
            i <= env@.len(),
            out@.len() == i,
            forall|k: int|
                0 <= k < i ==> template_outcome(
                    (#[trigger] values_of(env@)[k])@,
                    pair_texts(context@),
                ) == Ok::<Seq<char>, TemplateFault>(values_of(out@)[k]@),
            forall|k: int| 0 <= k < i ==> (#[trigger] out@[k]).0@ == env@[k].0@,
        decreases env@.len() - i,
    {
        match render(env[i].1.as_str(), context) {
            Ok(text) => {
                out.push((env[i].0.clone(), text));
            },
            Err(fault) => {
                assert(values_of(env@)[i as int] == env@[i as int].1);
                return Err(RenderFailure { index: i, fault });
            },
        }
        i = i + 1;
    }
    Ok(out)
}

/// Puts an experiment together from a task's programs and the renderings of
/// its templates. The commands around the runs are present exactly where
/// the task names their programs.
pub fn assemble_experiment(
    executable: String,
    args: Vec<String>,
    pre_run_executable: Option<String>,
    pre_run_args: Vec<String>,
    post_run_executable: Option<String>,
    post_run_args: Vec<String>,
    env: Option<Vec<(String, String)>>,
    experiment_path: &str,
) -> (config: ExperimentConfig)
    ensures
        config.program == executable,
        config.args == args,
        config.pre_run == match pre_run_executable {
            Some(program) => Some((program, pre_run_args)),
            None => None,
        },
        config.post_run == match post_run_executable {
            Some(program) => Some((program, post_run_args)),
            None => None,
        },
        config.output_path@ == experiment_path@,
        config.env == env,
{
    ExperimentConfig {
        program: executable,
        pre_run: match pre_run_executable {
            Some(program) => Some((program, pre_run_args)),
            None => None,
        },
        post_run: match post_run_executable {
            Some(program) => Some((program, post_run_args)),
            None => None,
        },
        args,
        output_path: String::from_str(experiment_path),
        env,
    }
}

/// Whether `config` is the experiment that `task` gives with `threads`
/// threads, results in `experiment_path` and storage in `storage_path`.
pub open spec fn is_experiment_of(
    config: ExperimentConfig,
    task: Task,
    threads: usize,
    experiment_path: Seq<char>,
    storage_path: Seq<char>,
) -> bool {
    let context = template_context(threads, storage_path);
    &&& config.program == task.executable
    &&& config.output_path@ == experiment_path
    &&& renders_to(task.args@, context, config.args@)
    &&& match task.pre_run_executable {
        Some(program) => {
            &&& config.pre_run matches Some(command)
            &&& command.0 == program
            &&& renders_to(task.pre_run_args@, context, command.1@)
        },
        None => config.pre_run is None,
    }
    &&& match task.post_run_executable {
        Some(program) => {
            &&& config.post_run matches Some(command)
            &&& command.0 == program
            &&& renders_to(task.post_run_args@, context, command.1@)
        },
        None => config.post_run is None,
    }
    &&& match task.env {
        Some(env) => {
            &&& config.env matches Some(out)
            &&& env_renders_to(env@, context, out@)
        },
        None => config.env is None,
    }
}

/// Whether `error` names the first template of `task` without a
/// rendering. The arguments come first, then those of the command before
/// the runs, those of the command after them, and the environment.
pub open spec fn is_build_error_of(
    error: BuildError,
    task: Task,
    threads: usize,
    storage_path: Seq<char>,
) -> bool {
    let context = template_context(threads, storage_path);
    match error.part {
        TemplatePart::Args => fails_at(task.args@, context, error.index as int, error.fault),
        TemplatePart::PreRunArgs => all_render(task.args@, context) && fails_at(
            task.pre_run_args@,
            context,
            error.index as int,
            error.fault,
        ),
        TemplatePart::PostRunArgs => all_render(task.args@, context) && all_render(
            task.pre_run_args@,
            context,
        ) && fails_at(task.post_run_args@, context, error.index as int, error.fault),
        TemplatePart::Env => {
            &&& all_render(task.args@, context)
            &&& all_render(task.pre_run_args@, context)
            &&& all_render(task.post_run_args@, context)
            &&& task.env matches Some(env)
            &&& fails_at(values_of(env@), context, error.index as int, error.fault)
        },
    }
}

/// Makes a task into the experiment with `threads` threads. Every template
/// of the task is rendered with the thread count and the storage directory
/// at hand.
pub fn build_experiment(task: Task, threads: usize, experiment_path: &str, storage_path: &str) -> (r:
    Result<ExperimentConfig, BuildError>)
    ensures
        match r {
            Ok(config) => is_experiment_of(
                config,
                task,
                threads,
                experiment_path@,
                storage_path@,
            ),
            Err(error) => is_build_error_of(error, task, threads, storage_path@),
        },
{
    let Task {
        executable,
        args,
        pre_run_executable,
        pre_run_args,
        post_run_executable,
        post_run_args,
        env,
        num_threads: _,
        enclave_size: _,
        custom_manifest_path: _,
        storage_type: _,
    } = task;
    let mut context: Vec<(String, String)> = Vec::new();
    context.push((String::from_str("num_threads"), to_decimal(threads as u128)));
    context.push((String::from_str("output_directory"), String::from_str(storage_path)));
    assert(pair_texts(context@) =~= template_context(threads, storage_path@));
    let args = match render_all(&args, &context) {
        Ok(out) => out,
        Err(failure) => {
            return Err(
                BuildError {
                    part: TemplatePart::Args,
                    index: failure.index,
                    fault: failure.fault,
                },
            );
        },
    };
    let pre_run_args = match render_all(&pre_run_args, &context) {
        Ok(out) => out,
        Err(failure) => {
            return Err(
                BuildError {
                    part: TemplatePart::PreRunArgs,
                    index: failure.index,
                    fault: failure.fault,
                },
            );
        },
    };
    let post_run_args = match render_all(&post_run_args, &context) {
        Ok(out) => out,
        Err(failure) => {
            return Err(
                BuildError {
                    part: TemplatePart::PostRunArgs,
                    index: failure.index,
                    fault: failure.fault,
                },
            );
        },
    };
    let env = match env {
        Some(variables) => match render_env(&variables, &context) {
            Ok(out) => Some(out),
            Err(failure) => {
                return Err(
                    BuildError {
                        part: TemplatePart::Env,
                        index: failure.index,
                        fault: failure.fault,
                    },
                );
            },
        },
        None => None,
    };
    Ok(
        assemble_experiment(
            executable,
            args,
            pre_run_executable,
            pre_run_args,
            post_run_executable,
            post_run_args,
            env,
            experiment_path,
        ),
    )
}

/// Makes an experiment into one that runs inside an enclave: the enclave
/// loader is the program, and the path of the manifest is its first
/// argument, before the arguments of the experiment.
pub fn into_sgx_experiment(config: ExperimentConfig, manifest_path: String) -> (r: ExperimentConfig)
    ensures
        r.program@ == "gramine-sgx"@,
        r.args@ == seq![manifest_path] + config.args@,
        r.pre_run == config.pre_run,
        r.post_run == config.post_run,
        r.output_path == config.output_path,
        r.env == config.env,
{
    let ExperimentConfig { program: _, args, pre_run, post_run, output_path, env } = config;
    let mut args = args;
    let ghost before = args@;
    args.insert(0, manifest_path);
    assert(args@ =~= seq![manifest_path] + before);
    ExperimentConfig {
        program: String::from_str("gramine-sgx"),
        args,
        pre_run,
        post_run,
        output_path,
        env,
    }
}

} // verus!
