//! The command line's grammar, read by `clap`.

use crate::kernel::muskingum::MuskingumCungeKernel;
use crate::text::{count_value, parse_count};
use clap::{Arg, ArgAction, Command};
use vstd::prelude::*;

verus! {

/// What the value of an argument has to be.
#[derive(Debug, Clone, Copy, PartialEq, Eq, Structural)]
pub enum ValueKind {
    /// A path, which is not empty.
    Path,
    /// A count.
    Count,
    /// The name of a kernel.
    Kernel,
    /// Anything: the argument is a mark that is there or is not.
    Mark,
}

impl ValueKind {
    /// The values of this kind.
    pub open spec fn accepts(self, text: Seq<char>) -> bool {
        match self {
            ValueKind::Path => text.len() > 0,
            ValueKind::Count => count_value(text) is Some,
            ValueKind::Kernel => exists|k: MuskingumCungeKernel| text == #[trigger] k.spelled(),
            ValueKind::Mark => true,
        }
    }

    /// What is said of a value that is not of this kind.
    pub open spec fn refusal(self) -> Seq<char> {
        match self {
            ValueKind::Path => "a path is required"@,
            ValueKind::Count => "not a whole number that fits"@,
            ValueKind::Kernel =>
                "possible values: route-rs, route-rs-simd, t-route-modernized, t-route-legacy, c-muskingum-cunge"@,
            ValueKind::Mark => Seq::empty(),
        }
    }

    /// The value itself if it is of this kind, otherwise what is wrong with it.
    pub fn check(self, text: &str) -> (checked: Result<String, String>)
        ensures
            match checked {
                Ok(value) => self.accepts(text@) && value@ == text@,
                Err(reason) => !self.accepts(text@) && reason@ == self.refusal(),
            },
    {
        let fault: &str = match self {
            ValueKind::Path => {
                if !text.is_empty() {
                    return Ok(text.to_owned());
                }
                "a path is required"
            },
            ValueKind::Count => {
                if parse_count(text).is_some() {
                    return Ok(text.to_owned());
                }
                "not a whole number that fits"
            },
            ValueKind::Kernel => {
                if MuskingumCungeKernel::from_name(text).is_some() {
                    return Ok(text.to_owned());
                }
                "possible values: route-rs, route-rs-simd, t-route-modernized, t-route-legacy, c-muskingum-cunge"
            },
            ValueKind::Mark => {
                return Ok(text.to_owned());
            },
        };
        Err(fault.to_owned())
    }
}

/// One argument of the command.
#[derive(Clone, Copy)]
pub struct ArgDef {
    pub id: &'static str,
    pub short: Option<char>,
    /// A second short name.
    pub alias: Option<char>,
    pub long: Option<&'static str>,
    pub help: &'static str,
    /// What stands for its value in the usage text.
    pub value_name: Option<&'static str>,
    /// What its value has to be.
    pub kind: ValueKind,
    /// Whether the command line must give it.
    pub required: bool,
    /// How many values follow its name.
    pub values: usize,
    /// The value it has where its name stands without one.
    pub bare: Option<&'static str>,
}

/// An argument as plain mathematics.
#[verifier::ext_equal]
pub struct ArgShape {
    pub id: Seq<char>,
    pub short: Option<char>,
    pub alias: Option<char>,
    pub long: Option<Seq<char>>,
    pub kind: ValueKind,
    pub required: bool,
    pub values: nat,
    pub bare: Option<Seq<char>>,
}

/// What is shown of an argument.
#[verifier::ext_equal]
pub struct ArgLabel {
    pub help: Seq<char>,
    pub value_name: Option<Seq<char>>,
}

/// The text in an optional string.
pub open spec fn text_of(text: Option<&str>) -> Option<Seq<char>> {
    match text {
        Some(t) => Some(t@),
        None => None,
    }
}

impl ArgDef {
    /// What decides how a command line is read.
    pub open spec fn shape(self) -> ArgShape {
        ArgShape {
            id: self.id@,
            short: self.short,
            alias: self.alias,
            long: text_of(self.long),
            kind: self.kind,
            required: self.required,
            values: self.values as nat,
            bare: text_of(self.bare),
        }
    }

    pub open spec fn label(self) -> ArgLabel {
        ArgLabel { help: self.help@, value_name: text_of(self.value_name) }
    }
}

pub open spec fn shapes(defs: Seq<ArgDef>) -> Seq<ArgShape> {
    Seq::new(defs.len(), |i: int| defs[i].shape())
}

pub open spec fn labels(defs: Seq<ArgDef>) -> Seq<ArgLabel> {
    Seq::new(defs.len(), |i: int| defs[i].label())
}

pub open spec fn positional(id: Seq<char>, kind: ValueKind) -> ArgShape {
    ArgShape {
        id,
        short: None,
        alias: None,
        long: None,
        kind,
        required: true,
        values: 1,
        bare: None,
    }
}

pub open spec fn option(
    id: Seq<char>,
    short: Option<char>,
    alias: Option<char>,
    long: Seq<char>,
    kind: ValueKind,
) -> ArgShape {
    ArgShape { id, short, alias, long: Some(long), kind, required: false, values: 1, bare: None }
}

pub open spec fn flag(id: Seq<char>, long: Seq<char>) -> ArgShape {
    ArgShape {
        id,
        short: None,
        alias: None,
        long: Some(long),
        kind: ValueKind::Mark,
        required: false,
        values: 0,
        bare: Some("true"@),
    }
}

/// The arguments of the routing command.
pub open spec fn route_shapes() -> Seq<ArgShape> {
    seq![
        positional("route_dir"@, ValueKind::Path),
        option("hf"@, None, None, "hf"@, ValueKind::Path),
        option("input_dir"@, None, None, "input-dir"@, ValueKind::Path),
        option("output_dir"@, Some('o'), None, "output-dir"@, ValueKind::Path),
        option(
            "internal_timestep_seconds"@,
            Some('i'),
            Some('t'),
            "internal-timestep-seconds"@,
            ValueKind::Count,
        ),
        option("kernel"@, Some('k'), None, "kernel"@, ValueKind::Kernel),
        option("num_threads"@, Some('n'), None, "num-threads"@, ValueKind::Count),
        flag("fast_converge"@, "fast-converge"@),
    ]
}

pub open spec fn labelled(help: Seq<char>, value_name: Seq<char>) -> ArgLabel {
    ArgLabel { help, value_name: Some(value_name) }
}

/// What is shown of the arguments of the routing command.
pub open spec fn route_labels() -> Seq<ArgLabel> {
    seq![
        labelled("Route directory path"@, "ROUTE_DIR"@),
        labelled("Path to the GeoPackage (.gpkg) hydrofabric file"@, "HF"@),
        labelled("Path to the input directory containing CSV files"@, "INPUT_DIR"@),
        labelled("Path to the output directory"@, "OUTPUT_DIR"@),
        labelled(
            "Internal timestep in seconds. Must divide 3600 exactly. Larger values are cheaper and cost little accuracy: 900 is ~3x faster than 300 for a ~0.06% volume bias [default: 300]"@,
            "N"@,
        ),
        labelled(
            "Routing kernel to use [default: t-route-modernized] [possible values: route-rs, route-rs-simd, t-route-modernized, t-route-legacy, c-muskingum-cunge]"@,
            "KERNEL"@,
        ),
        labelled("Worker threads [default: number of CPUs]"@, "N"@),
        ArgLabel {
            help:
                "Start the depth solver from a tighter bracket. Converges in fewer iterations, so depths are slightly less converged: ~1.45x faster with the SIMD kernel, total flow shifted by ~0.07%. Rust kernels only"@,
            value_name: None,
        },
    ]
}

fn positional_def(
    id: &'static str,
    kind: ValueKind,
    value_name: &'static str,
    help: &'static str,
) -> (def: ArgDef)
    ensures
        def.shape() == positional(id@, kind),
        def.label() == labelled(help@, value_name@),
{
    ArgDef {
        id,
        short: None,
        alias: None,
        long: None,
        help,
        value_name: Some(value_name),
        kind,
        required: true,
        values: 1,
        bare: None,
    }
}

fn option_def(
    id: &'static str,
    short: Option<char>,
    alias: Option<char>,
    long: &'static str,
    kind: ValueKind,
    value_name: &'static str,
    help: &'static str,
) -> (def: ArgDef)
    ensures
        def.shape() == option(id@, short, alias, long@, kind),
        def.label() == labelled(help@, value_name@),
{
    ArgDef {
        id,
        short,
        alias,
        long: Some(long),
        help,
        value_name: Some(value_name),
        kind,
        required: false,
        values: 1,
        bare: None,
    }
}

fn flag_def(id: &'static str, long: &'static str, help: &'static str) -> (def: ArgDef)
    ensures
        def.shape() == flag(id@, long@),
        def.label() == (ArgLabel { help: help@, value_name: None }),
{
    ArgDef {
        id,
        short: None,
        alias: None,
        long: Some(long),
        help,
        value_name: None,
        kind: ValueKind::Mark,
        required: false,
        values: 0,
        bare: Some("true"),
    }
}

/// The arguments of the routing command.
pub fn route_command() -> (defs: Vec<ArgDef>)
    ensures
        shapes(defs@) == route_shapes(),
        labels(defs@) == route_labels(),
{
    let mut defs: Vec<ArgDef> = Vec::new();
    defs.push(positional_def("route_dir", ValueKind::Path, "ROUTE_DIR", "Route directory path"));
    defs.push(
        option_def(
            "hf",
            None,
            None,
            "hf",
            ValueKind::Path,
            "HF",
            "Path to the GeoPackage (.gpkg) hydrofabric file",
        ),
    );
    defs.push(
        option_def(
            "input_dir",
            None,
            None,
            "input-dir",
            ValueKind::Path,
            "INPUT_DIR",
            "Path to the input directory containing CSV files",
        ),
    );
    defs.push(
        option_def(
            "output_dir",
            Some('o'),
            None,
            "output-dir",
            ValueKind::Path,
            "OUTPUT_DIR",
            "Path to the output directory",
        ),
    );
    defs.push(
        option_def(
            "internal_timestep_seconds",
            Some('i'),
            Some('t'),
            "internal-timestep-seconds",
            ValueKind::Count,
            "N",
            "Internal timestep in seconds. Must divide 3600 exactly. Larger values are cheaper and cost little accuracy: 900 is ~3x faster than 300 for a ~0.06% volume bias [default: 300]",
        ),
    );
    defs.push(
        option_def(
            "kernel",
            Some('k'),
            None,
            "kernel",
            ValueKind::Kernel,
            "KERNEL",
            "Routing kernel to use [default: t-route-modernized] [possible values: route-rs, route-rs-simd, t-route-modernized, t-route-legacy, c-muskingum-cunge]",
        ),
    );
    defs.push(
        option_def(
            "num_threads",
            Some('n'),
            None,
            "num-threads",
            ValueKind::Count,
            "N",
            "Worker threads [default: number of CPUs]",
        ),
    );
    defs.push(
        flag_def(
            "fast_converge",
            "fast-converge",
            "Start the depth solver from a tighter bracket. Converges in fewer iterations, so depths are slightly less converged: ~1.45x faster with the SIMD kernel, total flow shifted by ~0.07%. Rust kernels only",
        ),
    );
    assert(shapes(defs@) =~= route_shapes());
    assert(labels(defs@) =~= route_labels());
    defs
}

/// Why `clap` read no values: the command line does not fit the command, or asks for help or
/// for the version.
#[derive(Debug)]
pub struct UsageError {
    /// What to show.
    pub message: String,
    /// Where to show it.
    pub to_stderr: bool,
}

/// A usage error as plain mathematics.
pub struct UsageText {
    pub message: Seq<char>,
    pub to_stderr: bool,
}

impl UsageError {
    pub open spec fn text(self) -> UsageText {
        UsageText { message: self.message@, to_stderr: self.to_stderr }
    }

    /// The exit status to end with: 2 for a line that does not fit, 0 for help and version.
    pub fn exit_code(&self) -> (code: i32)
        ensures
            code == if self.to_stderr {
                2i32
            } else {
                0
            },
    {
        if self.to_stderr {
            2
        } else {
            0
        }
    }
}

/// What `clap` makes of a command line for a program of this name, version and description: the
/// value of each argument, in the order of the arguments, or what it shows where it refuses the
/// line.
pub uninterp spec fn clap_outcome(
    name: Seq<char>,
    version: Seq<char>,
    about: Seq<char>,
    args: Seq<ArgShape>,
    labels: Seq<ArgLabel>,
    words: Seq<Seq<char>>,
) -> Result<Seq<Option<Seq<char>>>, UsageText>;

/// What `clap` makes of a command line of the routing command.
pub open spec fn route_outcome(words: Seq<Seq<char>>) -> Result<
    Seq<Option<Seq<char>>>,
    UsageText,
> {
    clap_outcome(
        "rs-route"@,
        "0.1.0"@,
        "Network routing simulation tool"@,
        route_shapes(),
        route_labels(),
        words,
    )
}

/// The words of a command line.
pub open spec fn words_of(words: Seq<String>) -> Seq<Seq<char>> {
    Seq::new(words.len(), |i: int| words[i]@)
}

/// An optional value as text.
pub open spec fn value_of(value: Option<String>) -> Option<Seq<char>> {
    match value {
        Some(v) => Some(v@),
        None => None,
    }
}

pub open spec fn values_of(values: Seq<Option<String>>) -> Seq<Option<Seq<char>>> {
    Seq::new(values.len(), |i: int| value_of(values[i]))
}

/// `clap::Command::try_get_matches_from` on a command with these arguments, and
/// `ArgMatches::get_one` for each of them: one value or none per argument. The first word is
/// the program's name as it was called. What comes out, the text of a refusal included, is
/// `clap_outcome`: `clap` strips its styling and is built without the feature that looks at the
/// terminal. It hands every value to its argument's parser, here `ValueKind::check`, as it comes
/// to it, so that what comes out was accepted; and it accepts no line without a required
/// argument.
#[verifier::external_body]
pub(crate) fn read_command_line(
    name: &'static str,
    version: &'static str,
    about: &'static str,
    defs: &Vec<ArgDef>,
    words: &Vec<String>,
) -> (values: Result<Vec<Option<String>>, UsageError>)
    requires
        shapes(defs@) == route_shapes(),
    ensures
        clap_outcome(
            name@,
            version@,
            about@,
            shapes(defs@),
            labels(defs@),
            words_of(words@),
        ) == match values {
            Ok(v) => Ok::<Seq<Option<Seq<char>>>, UsageText>(values_of(v@)),
            Err(e) => Err(e.text()),
        },
        values matches Ok(v) ==> v@.len() == defs@.len() && forall|i: int|
            #![trigger v@[i]]
            0 <= i < v@.len() ==> match v@[i] {
                Some(text) => defs@[i].kind.accepts(text@),
                None => !defs@[i].required,
            },
{
    let args = defs.iter().copied().map(|d| Arg::new(d.id).short(d.short).long(d.long)
        .visible_short_alias(d.alias).help(d.help).value_name(d.value_name).required(d.required)
        .action(ArgAction::Set).num_args(d.values).default_missing_value(d.bare)
        .value_parser(move |text: &str| d.kind.check(text)));
    let found = Command::new(name).version(version).about(about).args(args)
        .try_get_matches_from(words)
        .map_err(|e| UsageError { message: e.to_string(), to_stderr: e.use_stderr() })?;
    Ok(defs.iter().map(|d| found.get_one(d.id).cloned()).collect())
}

} // verus!
