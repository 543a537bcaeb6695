use crate::encoding::{percent_decode, percent_decoded, replace_all, replaced};
use crate::error::ImageProcessingError;
use crate::number::{decimal_within, parse_i32, parse_u32, parse_u8};
use crate::pipeline::{
    changes_geometry, failure_of, is_geometry, operation_views, Failure, OperationSpec, OperationView,
    PipelineRun, RunView, Waiting,
};
use crate::process_image::ProcessImageView;
use crate::process::{position_named, WatermarkPosition};
use crate::text::{pieces, same_text, split, views};
use vstd::prelude::*;
use vstd::string::StringExecFns;

verus! {

/// The name of the task that loads the image.
pub const PROCESS_LOAD: &'static str = "load";

/// The name of the task that resizes.
pub const PROCESS_RESIZE: &'static str = "resize";

/// The name of the task that encodes.
pub const PROCESS_OPTIM: &'static str = "optim";

/// The name of the task that crops.
pub const PROCESS_CROP: &'static str = "crop";

/// The name of the task that converts to luminance.
pub const PROCESS_GRAY: &'static str = "gray";

/// The name of the task that blends a watermark on.
pub const PROCESS_WATERMARK: &'static str = "watermark";

/// A text to replace in every parameter, and what to put in its place.
pub struct Alias {
    pub from: String,
    pub to: String,
}

/// What the reading of task lists goes by.
pub struct RunSettings {
    /// The quality of an encoder step that names none.
    pub default_quality: u8,
    /// The speed of an encoder step that names none.
    pub default_speed: u8,
    /// The replacements made in every parameter, in this order.
    pub aliases: Vec<Alias>,
}

/// `value` after the first `count` of the replacements.
pub open spec fn aliased(value: Seq<char>, aliases: Seq<Alias>, count: nat) -> Seq<char>
    decreases count,
{
    if count == 0 || count > aliases.len() {
        value
    } else {
        replaced(
            aliased(value, aliases, (count - 1) as nat),
            aliases[count - 1].from@,
            aliases[count - 1].to@,
        )
    }
}

/// The parameters of a task: what follows its name, each after all replacements.
pub open spec fn arguments(task: Seq<String>, aliases: Seq<Alias>) -> Seq<Seq<char>> {
    Seq::new((task.len() - 1) as nat, |i: int| aliased(task[i + 1]@, aliases, aliases.len()))
}

/// What one task of a list comes to.
pub ghost enum TaskOutcome {
    /// Nothing: the task has no parameter, or its name is not known.
    Skip,
    /// An operation.
    Op { op: OperationView },
    /// A failure of the whole list.
    Fail { failure: Failure },
}

/// The message of the error for a task with too few parameters.
pub open spec fn params_is_invalid() -> Seq<char> {
    "params is invalid"@
}

/// A number without sign of thirty-two bits.
pub open spec fn number(text: Seq<char>) -> Option<int> {
    decimal_within(text, false, 0, 0xffff_ffff)
}

/// A parameter of eight bits at position `at`, or `fallback` where the task
/// has no such parameter; `None` where it is there and no such number.
pub open spec fn small_or(args: Seq<Seq<char>>, at: int, fallback: u8) -> Option<u8> {
    if args.len() > at {
        match decimal_within(args[at], false, 0, 255) {
            Some(v) => Some(v as u8),
            None => None,
        }
    } else {
        Some(fallback)
    }
}

/// A margin at position `at`, or zero where the task has no such parameter;
/// `None` where it is there and no such number.
pub open spec fn margin_or_none(args: Seq<Seq<char>>, at: int) -> Option<i32> {
    if args.len() > at {
        match decimal_within(args[at], true, -0x8000_0000, 0x7fff_ffff) {
            Some(v) => Some(v as i32),
            None => None,
        }
    } else {
        Some(0i32)
    }
}

/// The failure of a task over a parameter that is no number of the range
/// asked for: it reports that parameter.
pub open spec fn not_a_number(text: Seq<char>) -> TaskOutcome {
    TaskOutcome::Fail { failure: Failure::ParseInt { text } }
}

/// What the task called `name` with the parameters `args` comes to. Where
/// several parameters are no numbers, the first of them is reported.
pub open spec fn task_outcome(name: Seq<char>, args: Seq<Seq<char>>, quality: u8, speed: u8) -> TaskOutcome {
    let invalid = TaskOutcome::Fail { failure: Failure::ParamsInvalid { message: params_is_invalid() } };
    if args.len() < 1 {
        TaskOutcome::Skip
    } else if name == PROCESS_LOAD@ {
        TaskOutcome::Op {
            op: OperationView::Load {
                locator: args[0],
                extension_hint: if args.len() >= 2 {
                    args[1]
                } else {
                    Seq::empty()
                },
            },
        }
    } else if name == PROCESS_RESIZE@ {
        if args.len() < 2 {
            invalid
        } else if number(args[0]) is None {
            not_a_number(args[0])
        } else if number(args[1]) is None {
            not_a_number(args[1])
        } else {
            TaskOutcome::Op {
                op: OperationView::Resize {
                    width: number(args[0])->0 as u32,
                    height: number(args[1])->0 as u32,
                },
            }
        }
    } else if name == PROCESS_GRAY@ {
        TaskOutcome::Op { op: OperationView::Grayscale }
    } else if name == PROCESS_OPTIM@ {
        if small_or(args, 1, quality) is None {
            not_a_number(args[1])
        } else if small_or(args, 2, speed) is None {
            not_a_number(args[2])
        } else {
            TaskOutcome::Op {
                op: OperationView::Optim {
                    target_format: args[0],
                    quality: small_or(args, 1, quality)->0,
                    speed: small_or(args, 2, speed)->0,
                },
            }
        }
    } else if name == PROCESS_CROP@ {
        if args.len() < 4 {
            invalid
        } else if number(args[0]) is None {
            not_a_number(args[0])
        } else if number(args[1]) is None {
            not_a_number(args[1])
        } else if number(args[2]) is None {
            not_a_number(args[2])
        } else if number(args[3]) is None {
            not_a_number(args[3])
        } else {
            TaskOutcome::Op {
                op: OperationView::Crop {
                    x: number(args[0])->0 as u32,
                    y: number(args[1])->0 as u32,
                    width: number(args[2])->0 as u32,
                    height: number(args[3])->0 as u32,
                },
            }
        }
    } else if name == PROCESS_WATERMARK@ {
        if percent_decoded(args[0]) is None {
            TaskOutcome::Fail { failure: Failure::FromUtf }
        } else if margin_or_none(args, 2) is None {
            not_a_number(args[2])
        } else if margin_or_none(args, 3) is None {
            not_a_number(args[3])
        } else {
            TaskOutcome::Op {
                op: OperationView::Watermark {
                    locator: percent_decoded(args[0])->0,
                    position: if args.len() > 1 {
                        position_named(args[1])
                    } else {
                        WatermarkPosition::RightBottom
                    },
                    margin_left: margin_or_none(args, 2)->0,
                    margin_top: margin_or_none(args, 3)->0,
                },
            }
        }
    } else {
        TaskOutcome::Skip
    }
}

/// What a task of a list comes to: its first entry is its name, the others
/// are its parameters. A task without parameters is passed over, but for the
/// conversion to luminance, which needs none.
pub open spec fn outcome_of(task: Seq<String>, settings: &RunSettings) -> TaskOutcome {
    if task.len() == 1 && task[0]@ == PROCESS_GRAY@ {
        TaskOutcome::Op { op: OperationView::Grayscale }
    } else if task.len() < 2 {
        TaskOutcome::Skip
    } else {
        task_outcome(
            task[0]@,
            arguments(task, settings.aliases@),
            settings.default_quality,
            settings.default_speed,
        )
    }
}

/// The operations that the first `count` tasks of a list come to, or the
/// failure of the first task that fails.
pub open spec fn operations_of(tasks: Seq<Vec<String>>, settings: &RunSettings, count: nat) -> Result<
    Seq<OperationView>,
    Failure,
>
    decreases count,
{
    if count == 0 || count > tasks.len() {
        Ok(Seq::empty())
    } else {
        match operations_of(tasks, settings, (count - 1) as nat) {
            Err(failure) => Err(failure),
            Ok(ops) => match outcome_of(tasks[count - 1]@, settings) {
                TaskOutcome::Skip => Ok(ops),
                TaskOutcome::Op { op } => Ok(ops.push(op)),
                TaskOutcome::Fail { failure } => Err(failure),
            },
        }
    }
}

/// Whether some operation of a list changes what is in the picture or its size.
pub open spec fn has_geometry(ops: Seq<OperationView>) -> bool {
    exists|i: int| 0 <= i < ops.len() && is_geometry(#[trigger] ops[i])
}

/// The operations of a list with the comparison step behind them, which is
/// left out where an operation changes the picture or its size.
pub open spec fn with_comparison(ops: Seq<OperationView>) -> Seq<OperationView> {
    if has_geometry(ops) {
        ops
    } else {
        ops.push(OperationView::Diff)
    }
}

/// Once a task has failed, the list has failed.
pub proof fn lemma_failure_stays(tasks: Seq<Vec<String>>, settings: &RunSettings, count: nat, more: nat)
    requires
        count <= more <= tasks.len(),
        operations_of(tasks, settings, count) is Err,
    ensures
        operations_of(tasks, settings, more) == operations_of(tasks, settings, count),
    decreases more,
{
    if more > count {
        lemma_failure_stays(tasks, settings, count, (more - 1) as nat);
    }
}

/// `value` after all replacements.
pub fn apply_aliases(value: &String, aliases: &Vec<Alias>) -> (r: String)
    ensures
        r@ == aliased(value@, aliases@, aliases@.len()),
{
    let mut current = value.clone();
    let mut i: usize = 0;
    while i < aliases.len()
        invariant
            i <= aliases.len(),
            current@ == aliased(value@, aliases@, i as nat),
        decreases aliases.len() - i,
    {
        current = replace_all(current.as_str(), aliases[i].from.as_str(), aliases[i].to.as_str());
        i = i + 1;
    }
    current
}

/// A numeric parameter without sign, or the error that names it.
fn number_param(text: &String) -> (r: Result<u32, ImageProcessingError>)
    ensures
        match r {
            Ok(v) => number(text@) == Some(v as int),
            Err(e) => number(text@) is None && e is ParseInt && e->ParseInt_text@ == text@,
        },
{
    match parse_u32(text.as_str()) {
        Some(v) => Ok(v),
        None => Err(ImageProcessingError::ParseInt { text: text.clone() }),
    }
}

/// A parameter of eight bits at position `at`, or `fallback`.
fn small_param(args: &Vec<String>, at: usize, fallback: u8) -> (r: Result<u8, ImageProcessingError>)
    ensures
        match r {
            Ok(v) => small_or(views(args@), at as int, fallback) == Some(v),
            Err(e) => small_or(views(args@), at as int, fallback) is None && e is ParseInt
                && at < args@.len() && e->ParseInt_text@ == args@[at as int]@,
        },
{
    if args.len() > at {
        match parse_u8(args[at].as_str()) {
            Some(v) => Ok(v),
            None => Err(ImageProcessingError::ParseInt { text: args[at].clone() }),
        }
    } else {
        Ok(fallback)
    }
}

/// A margin at position `at`, or zero.
fn margin_param(args: &Vec<String>, at: usize) -> (r: Result<i32, ImageProcessingError>)
    ensures
        match r {
            Ok(v) => margin_or_none(views(args@), at as int) == Some(v),
            Err(e) => margin_or_none(views(args@), at as int) is None && e is ParseInt && at
                < args@.len() && e->ParseInt_text@ == args@[at as int]@,
        },
{
    if args.len() > at {
        match parse_i32(args[at].as_str()) {
            Some(v) => Ok(v),
            None => Err(ImageProcessingError::ParseInt { text: args[at].clone() }),
        }
    } else {
        Ok(0)
    }
}

/// Reads the task called `name` with the parameters `args`, which have been
/// through the replacements.
pub fn parse_task(name: &str, args: &Vec<String>, quality: u8, speed: u8) -> (r: Result<
    Option<OperationSpec>,
    ImageProcessingError,
>)
    ensures
        match r {
            Ok(None) => task_outcome(name@, views(args@), quality, speed) is Skip,
            Ok(Some(op)) => task_outcome(name@, views(args@), quality, speed) == (TaskOutcome::Op {
                op: op@,
            }),
            Err(e) => task_outcome(name@, views(args@), quality, speed) == (TaskOutcome::Fail {
                failure: failure_of(e),
            }),
        },
{
    let ghost texts = views(args@);
    if args.len() < 1 {
        return Ok(None);
    }
    assert(texts[0] == args[0]@);
    if same_text(name, PROCESS_LOAD) {
        let extension_hint = if args.len() >= 2 {
            assert(texts[1] == args[1]@);
            args[1].clone()
        } else {
            String::new()
        };
        Ok(Some(OperationSpec::Load { locator: args[0].clone(), extension_hint }))
    } else if same_text(name, PROCESS_RESIZE) {
        if args.len() < 2 {
            return Err(ImageProcessingError::params_invalid("params is invalid"));
        }
        assert(texts[1] == args[1]@);
        let width = match number_param(&args[0]) {
            Ok(v) => v,
            Err(e) => {
                return Err(e);
            },
        };
        let height = match number_param(&args[1]) {
            Ok(v) => v,
            Err(e) => {
                return Err(e);
            },
        };
        Ok(Some(OperationSpec::Resize { width, height }))
    } else if same_text(name, PROCESS_GRAY) {
        Ok(Some(OperationSpec::Grayscale))
    } else if same_text(name, PROCESS_OPTIM) {
        let quality = match small_param(args, 1, quality) {
            Ok(v) => v,
            Err(e) => {
                return Err(e);
            },
        };
        let speed = match small_param(args, 2, speed) {
            Ok(v) => v,
            Err(e) => {
                return Err(e);
            },
        };
        Ok(Some(OperationSpec::Optim { target_format: args[0].clone(), quality, speed }))
    } else if same_text(name, PROCESS_CROP) {
        if args.len() < 4 {
            return Err(ImageProcessingError::params_invalid("params is invalid"));
        }
        assert(texts[1] == args[1]@);
        assert(texts[2] == args[2]@);
        assert(texts[3] == args[3]@);
        let x = match number_param(&args[0]) {
            Ok(v) => v,
            Err(e) => {
                return Err(e);
            },
        };
        let y = match number_param(&args[1]) {
            Ok(v) => v,
            Err(e) => {
                return Err(e);
            },
        };
        let width = match number_param(&args[2]) {
            Ok(v) => v,
            Err(e) => {
                return Err(e);
            },
        };
        let height = match number_param(&args[3]) {
            Ok(v) => v,
            Err(e) => {
                return Err(e);
            },
        };
        Ok(Some(OperationSpec::Crop { x, y, width, height }))
    } else if same_text(name, PROCESS_WATERMARK) {
        let locator = match percent_decode(args[0].as_str()) {
            Ok(v) => v,
            Err(source) => {
                return Err(ImageProcessingError::FromUtf { source });
            },
        };
        let position = if args.len() > 1 {
            assert(texts[1] == args[1]@);
            WatermarkPosition::from_str(args[1].as_str())
        } else {
            WatermarkPosition::RightBottom
        };
        let margin_left = match margin_param(args, 2) {
            Ok(v) => v,
            Err(e) => {
                return Err(e);
            },
        };
        let margin_top = match margin_param(args, 3) {
            Ok(v) => v,
            Err(e) => {
                return Err(e);
            },
        };
        Ok(Some(OperationSpec::Watermark { locator, position, margin_left, margin_top }))
    } else {
        Ok(None)
    }
}

/// Reads one task of a list: its name, and behind it its parameters, which
/// are put through the replacements first.
pub fn read_task(task: &Vec<String>, settings: &RunSettings) -> (r: Result<
    Option<OperationSpec>,
    ImageProcessingError,
>)
    ensures
        match r {
            Ok(None) => outcome_of(task@, settings) is Skip,
            Ok(Some(op)) => outcome_of(task@, settings) == (TaskOutcome::Op { op: op@ }),
            Err(e) => outcome_of(task@, settings) == (TaskOutcome::Fail { failure: failure_of(e) }),
        },
{
    if task.len() == 1 && same_text(task[0].as_str(), PROCESS_GRAY) {
        return Ok(Some(OperationSpec::Grayscale));
    }
    if task.len() < 2 {
        return Ok(None);
    }
    let mut args: Vec<String> = Vec::new();
    let mut k: usize = 1;
    while k < task.len()
        invariant
            1 <= k <= task.len(),
            args@.len() == k - 1,
            forall|j: int|
                0 <= j < args@.len() ==> args@[j]@ == aliased(
                    task@[j + 1]@,
                    settings.aliases@,
                    settings.aliases@.len(),
                ),
        decreases task.len() - k,
    {
        args.push(apply_aliases(&task[k], &settings.aliases));
        k = k + 1;
    }
    assert(views(args@) =~= arguments(task@, settings.aliases@));
    parse_task(task[0].as_str(), &args, settings.default_quality, settings.default_speed)
}

/// Reads a list of tasks, each a name followed by its parameters, into the
/// operations of a run. A task of an unknown name is passed over, and so is
/// a task without parameters unless it is the conversion to luminance. The first task that cannot be read fails the list.
/// The comparison step is put behind the operations unless one of them
/// changes the picture or its size.
pub fn parse_tasks(tasks: &Vec<Vec<String>>, settings: &RunSettings) -> (r: Result<
    Vec<OperationSpec>,
    ImageProcessingError,
>)
    ensures
        match r {
            Ok(ops) => operations_of(tasks@, settings, tasks@.len()) is Ok && operation_views(ops@)
                == with_comparison(operations_of(tasks@, settings, tasks@.len())->Ok_0),
            Err(e) => operations_of(tasks@, settings, tasks@.len()) == Err::<Seq<OperationView>, Failure>(
                failure_of(e),
            ),
        },
{
    let mut ops: Vec<OperationSpec> = Vec::new();
    let mut geometry = false;
    let mut i: usize = 0;
    assert(operation_views(ops@) =~= Seq::<OperationView>::empty());
    while i < tasks.len()
        invariant
            i <= tasks.len(),
            operations_of(tasks@, settings, i as nat) == Ok::<Seq<OperationView>, Failure>(
                operation_views(ops@),
            ),
            geometry == has_geometry(operation_views(ops@)),
        decreases tasks.len() - i,
    {
        match read_task(&tasks[i], settings) {
            Err(e) => {
                proof {
                    lemma_failure_stays(tasks@, settings, (i + 1) as nat, tasks@.len());
                }
                return Err(e);
            },
            Ok(None) => {},
            Ok(Some(op)) => {
                let ghost before = operation_views(ops@);
                let moves = changes_geometry(&op);
                ops.push(op);
                proof {
                    let after = operation_views(ops@);
                    assert(after =~= before.push(op@));
                    if moves {
                        assert(is_geometry(after[after.len() - 1]));
                    } else if has_geometry(before) {
                        let at = choose|at: int| 0 <= at < before.len() && is_geometry(#[trigger] before[at]);
                        assert(after[at] == before[at]);
                    } else if has_geometry(after) {
                        let at = choose|at: int| 0 <= at < after.len() && is_geometry(#[trigger] after[at]);
                        assert(after[at] == before[at]);
                    }
                }
                geometry = geometry || moves;
            },
        }
        i = i + 1;
    }
    if !geometry {
        let ghost before = operation_views(ops@);
        ops.push(OperationSpec::Diff);
        assert(operation_views(ops@) =~= before.push(OperationView::Diff));
    }
    Ok(ops)
}

/// The replacements that a list names: its entries are separated by blanks,
/// and each entry that has exactly one equals sign names a text and what to
/// put in its place. Other entries are passed over.
pub open spec fn aliases_of(entries: Seq<Seq<char>>, count: nat) -> Seq<(Seq<char>, Seq<char>)>
    decreases count,
{
    if count == 0 || count > entries.len() {
        Seq::empty()
    } else {
        let before = aliases_of(entries, (count - 1) as nat);
        let parts = pieces(entries[count - 1], '=');
        if parts.len() == 2 {
            before.push((parts[0], parts[1]))
        } else {
            before
        }
    }
}

/// The contents of a list of replacements.
pub open spec fn alias_views(aliases: Seq<Alias>) -> Seq<(Seq<char>, Seq<char>)> {
    Seq::new(aliases.len(), |i: int| (aliases[i].from@, aliases[i].to@))
}

/// Reads a list of replacements of the form `a=b c=d`.
pub fn parse_aliases(list: &str) -> (r: Vec<Alias>)
    ensures
        alias_views(r@) == aliases_of(pieces(list@, ' '), pieces(list@, ' ').len()),
{
    let entries = split(list, ' ');
    let mut aliases: Vec<Alias> = Vec::new();
    let mut i: usize = 0;
    assert(alias_views(aliases@) =~= Seq::<(Seq<char>, Seq<char>)>::empty());
    while i < entries.len()
        invariant
            i <= entries.len(),
            views(entries@) == pieces(list@, ' '),
            alias_views(aliases@) == aliases_of(views(entries@), i as nat),
        decreases entries.len() - i,
    {
        assert(views(entries@)[i as int] == entries@[i as int]@);
        let parts = split(entries[i].as_str(), '=');
        if parts.len() == 2 {
            assert(views(parts@)[0] == parts@[0]@);
            assert(views(parts@)[1] == parts@[1]@);
            let ghost before = alias_views(aliases@);
            aliases.push(Alias { from: parts[0].clone(), to: parts[1].clone() });
            assert(alias_views(aliases@) =~= before.push((parts@[0]@, parts@[1]@)));
        }
        i = i + 1;
    }
    aliases
}

/// The contents of a list of task lists.
pub open spec fn task_views(tasks: Seq<Vec<String>>) -> Seq<Seq<Seq<char>>> {
    Seq::new(tasks.len(), |i: int| views(tasks[i]@))
}

/// What one part of a query comes to: nothing where it has not exactly one
/// equals sign; else the task whose name stands before the sign and whose
/// parameters are the pieces that bars cut the decoded value into; or a
/// failure where the value does not decode.
pub open spec fn query_task(part: Seq<char>) -> Option<Result<Seq<Seq<char>>, Failure>> {
    let items = pieces(part, '=');
    if items.len() != 2 {
        None
    } else {
        match percent_decoded(items[1]) {
            None => Some(Err(Failure::FromUtf)),
            Some(value) => Some(Ok(seq![items[0]] + pieces(value, '|'))),
        }
    }
}

/// The tasks that the first `count` parts of a query come to, or the failure
/// of the first part that fails.
pub open spec fn query_tasks(parts: Seq<Seq<char>>, count: nat) -> Result<Seq<Seq<Seq<char>>>, Failure>
    decreases count,
{
    if count == 0 || count > parts.len() {
        Ok(Seq::empty())
    } else {
        match query_tasks(parts, (count - 1) as nat) {
            Err(failure) => Err(failure),
            Ok(tasks) => match query_task(parts[count - 1]) {
                None => Ok(tasks),
                Some(Ok(task)) => Ok(tasks.push(task)),
                Some(Err(failure)) => Err(failure),
            },
        }
    }
}

/// Once a part has failed, the query has failed.
pub proof fn lemma_query_failure_stays(parts: Seq<Seq<char>>, count: nat, more: nat)
    requires
        count <= more <= parts.len(),
        query_tasks(parts, count) is Err,
    ensures
        query_tasks(parts, more) == query_tasks(parts, count),
    decreases more,
{
    if more > count {
        lemma_query_failure_stays(parts, count, (more - 1) as nat);
    }
}

/// The message of the error for a request without a query.
pub open spec fn params_is_null() -> Seq<char> {
    "params is null"@
}

/// The task that a name and the decoded value behind it come to: the name,
/// and behind it the pieces that bars cut the value into.
pub fn task_of_value(name: &String, value: &str) -> (r: Vec<String>)
    ensures
        views(r@) == seq![name@] + pieces(value@, '|'),
{
    let mut params: Vec<String> = Vec::new();
    params.push(name.clone());
    let mut values = split(value, '|');
    let ghost cut = views(values@);
    params.append(&mut values);
    assert(views(params@) =~= seq![name@] + cut);
    params
}

/// Reads a query of the form `name=a|b&name=c` into a list of tasks. Its
/// parts are separated by ampersands.
pub fn convert_query_to_desc(query: Option<String>) -> (r: Result<Vec<Vec<String>>, ImageProcessingError>)
    ensures
        match query {
            None => r is Err && r->Err_0 is ParamsInvalid && r->Err_0->ParamsInvalid_message@
                == params_is_null(),
            Some(text) => {
                let parts = pieces(text@, '&');
                match r {
                    Ok(tasks) => query_tasks(parts, parts.len()) == Ok::<Seq<Seq<Seq<char>>>, Failure>(
                        task_views(tasks@),
                    ),
                    Err(e) => query_tasks(parts, parts.len()) == Err::<Seq<Seq<Seq<char>>>, Failure>(
                        failure_of(e),
                    ),
                }
            },
        },
{
    let text = match query {
        None => {
            return Err(ImageProcessingError::params_invalid("params is null"));
        },
        Some(text) => text,
    };
    let parts = split(text.as_str(), '&');
    let mut result: Vec<Vec<String>> = Vec::new();
    let mut i: usize = 0;
    assert(task_views(result@) =~= Seq::<Seq<Seq<char>>>::empty());
    while i < parts.len()
        invariant
            i <= parts.len(),
            query == Some(text),
            views(parts@) == pieces(text@, '&'),
            query_tasks(views(parts@), i as nat) == Ok::<Seq<Seq<Seq<char>>>, Failure>(task_views(result@)),
        decreases parts.len() - i,
    {
        assert(views(parts@)[i as int] == parts@[i as int]@);
        let items = split(parts[i].as_str(), '=');
        if items.len() == 2 {
            assert(views(items@)[0] == items@[0]@);
            assert(views(items@)[1] == items@[1]@);
            match percent_decode(items[1].as_str()) {
                Err(source) => {
                    proof {
                        lemma_query_failure_stays(views(parts@), (i + 1) as nat, parts@.len());
                    }
                    return Err(ImageProcessingError::FromUtf { source });
                },
                Ok(value) => {
                    let params = task_of_value(&items[0], value.as_str());
                    let ghost before = task_views(result@);
                    result.push(params);
                    assert(task_views(result@) =~= before.push(seq![items@[0]@] + pieces(value@, '|')));
                },
            }
        }
        i = i + 1;
    }
    Ok(result)
}

/// Reads a list of tasks and sets up the run of its operations, which has
/// not started yet.
pub fn run(tasks: &Vec<Vec<String>>, settings: &RunSettings, disable_dssim: bool) -> (r: Result<
    PipelineRun,
    ImageProcessingError,
>)
    ensures
        match r {
            Ok(started) => {
                &&& operations_of(tasks@, settings, tasks@.len()) is Ok
                &&& operation_views(started@.ops) == with_comparison(
                    operations_of(tasks@, settings, tasks@.len())->Ok_0,
                )
                &&& started@ == (RunView {
                    ops: started@.ops,
                    next: 0,
                    image: ProcessImageView::empty(),
                    waiting: Waiting::Nothing,
                    disable_dssim,
                })
            },
            Err(e) => operations_of(tasks@, settings, tasks@.len()) == Err::<Seq<OperationView>, Failure>(
                failure_of(e),
            ),
        },
{
    match parse_tasks(tasks, settings) {
        Err(e) => Err(e),
        Ok(ops) => Ok(PipelineRun::new(ops, disable_dssim)),
    }
}

} // verus!
