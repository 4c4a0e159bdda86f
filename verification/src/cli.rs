//! Command line, run directories and the configuration they give.

use crate::command::{
    read_command_line, route_command, route_outcome, route_shapes, shapes, value_of, values_of,
    words_of, UsageError, ValueKind,
};
use crate::config::EXTERNAL_TIMESTEP_SECONDS;
use crate::kernel::muskingum::{MuskingumCungeKernel, SecantBracket};
use crate::text::{
    chars_of, comma_list, count_value, decimal, join_path, joined, parse_count, push_comma_list,
    push_decimal,
};
use vstd::prelude::*;

verus! {

/// The internal timesteps that can be used: those that divide the forcing step.
pub open spec fn accepted_timestep(dt: int) -> bool {
    0 < dt <= EXTERNAL_TIMESTEP_SECONDS && EXTERNAL_TIMESTEP_SECONDS as int % dt == 0
}

/// A timestep that does not divide the forcing step.
#[derive(Debug, Clone, Copy, PartialEq, Eq, Structural)]
pub struct TimestepError {
    pub dt: usize,
}

/// The routing clock advances `3600 / dt` steps per forcing step, so a `dt` that does not divide
/// 3600 silently runs the model slow: `-t 700` would take 5 steps of 700 s per forcing hour,
/// losing 100 s every hour.
pub fn validate_timestep(dt: usize) -> (timestep: Result<usize, TimestepError>)
    ensures
        timestep == if accepted_timestep(dt as int) {
            Ok::<usize, TimestepError>(dt)
        } else {
            Err(TimestepError { dt })
        },
{
    if dt == 0 || dt > EXTERNAL_TIMESTEP_SECONDS || EXTERNAL_TIMESTEP_SECONDS % dt != 0 {
        return Err(TimestepError { dt });
    }
    Ok(dt)
}

/// The timesteps worth suggesting: accepted, and a minute or more.
pub open spec fn suggested(dt: int) -> bool {
    accepted_timestep(dt) && dt >= 60
}

/// In ascending order, exactly the suggested timesteps.
pub open spec fn lists_suggestions(list: Seq<usize>) -> bool {
    &&& forall|i: int, j: int|
        #![trigger list[i], list[j]]
        0 <= i < j < list.len() ==> list[i] < list[j]
    &&& forall|d: usize| #[trigger] list.contains(d) <==> suggested(d as int)
}

/// The suggested timesteps, smallest first.
pub fn valid_timesteps() -> (list: Vec<usize>)
    ensures
        lists_suggestions(list@),
{
    let mut list: Vec<usize> = Vec::new();
    let mut d: usize = 1;
    while d <= EXTERNAL_TIMESTEP_SECONDS
        invariant
            1 <= d <= EXTERNAL_TIMESTEP_SECONDS + 1,
            forall|i: int, j: int|
                #![trigger list@[i], list@[j]]
                0 <= i < j < list@.len() ==> list@[i] < list@[j],
            forall|i: int| 0 <= i < list@.len() ==> #[trigger] list@[i] < d,
            forall|x: usize| #[trigger] list@.contains(x) <==> x < d && suggested(x as int),
        decreases EXTERNAL_TIMESTEP_SECONDS + 1 - d,
    {
        if EXTERNAL_TIMESTEP_SECONDS % d == 0 && d >= 60 {
            let ghost before = list@;
            list.push(d);
            assert forall|x: usize| #[trigger] list@.contains(x) <==> before.contains(x) || x
                == d by {
                if before.contains(x) {
                    assert(list@[before.index_of(x)] == x);
                }
                assert(list@[before.len() as int] == d);
            }
        }
        d += 1;
    }
    list
}

impl TimestepError {
    /// The text of the message, `list` being the suggestions.
    pub open spec fn says(self, list: Seq<usize>) -> Seq<char> {
        "Internal timestep of "@ + decimal(self.dt as nat) + "s does not divide the "@ + decimal(
            EXTERNAL_TIMESTEP_SECONDS as nat,
        )
            + "s forcing step evenly, so the routing clock would drift from the forcing clock. Valid values of 60s or more: "@
            + comma_list(list)
    }

    /// What is wrong with the timestep, and which ones could be used instead.
    pub fn message(&self) -> (text: String)
        ensures
            exists|list: Seq<usize>| #[trigger]
                lists_suggestions(list) && text@ == self.says(list),
    {
        let list = valid_timesteps();
        let mut text: String = String::new();
        text.append("Internal timestep of ");
        push_decimal(&mut text, self.dt);
        text.append("s does not divide the ");
        push_decimal(&mut text, EXTERNAL_TIMESTEP_SECONDS);
        text.append("s forcing step evenly, so the routing clock would drift from the forcing clock. Valid values of 60s or more: ");
        push_comma_list(&mut text, &list);
        assert(text@ =~= self.says(list@));
        text
    }
}

/// Every accepted timestep gives a whole number of internal steps that add back up to exactly
/// one forcing step, so the routing clock cannot drift from the forcing clock.
pub proof fn law_accepted_timesteps_reconstruct_the_forcing_step(dt: usize)
    requires
        accepted_timestep(dt as int),
    ensures
        (EXTERNAL_TIMESTEP_SECONDS as int / dt as int) * dt == EXTERNAL_TIMESTEP_SECONDS,
{
    vstd::arithmetic::div_mod::lemma_fundamental_div_mod(
        EXTERNAL_TIMESTEP_SECONDS as int,
        dt as int,
    );
    assert((EXTERNAL_TIMESTEP_SECONDS as int / dt as int) * dt == dt * (
    EXTERNAL_TIMESTEP_SECONDS as int / dt as int)) by (nonlinear_arith);
}

/// The values on a command line, as text.
#[derive(Debug)]
pub struct RawArgs {
    pub route_dir: Option<String>,
    pub hf: Option<String>,
    pub input_dir: Option<String>,
    pub output_dir: Option<String>,
    pub internal_timestep_seconds: Option<String>,
    pub kernel: Option<String>,
    pub num_threads: Option<String>,
    pub fast_converge: Option<String>,
}

impl RawArgs {
    /// The values in the order of the command's arguments.
    pub open spec fn in_order(self) -> Seq<Option<Seq<char>>> {
        seq![
            value_of(self.route_dir),
            value_of(self.hf),
            value_of(self.input_dir),
            value_of(self.output_dir),
            value_of(self.internal_timestep_seconds),
            value_of(self.kernel),
            value_of(self.num_threads),
            value_of(self.fast_converge),
        ]
    }
}

/// What a command line asks for.
#[derive(Debug)]
pub struct Args {
    /// Route directory path.
    pub route_dir: String,
    /// Path to the GeoPackage hydrofabric file.
    pub hf: Option<String>,
    /// Path to the input directory containing CSV files.
    pub input_dir: Option<String>,
    /// Path to the output directory.
    pub output_dir: Option<String>,
    pub internal_timestep_seconds: usize,
    pub kernel: MuskingumCungeKernel,
    pub num_threads: usize,
    /// Start the depth solver from a tighter bracket.
    pub fast_converge: bool,
}

/// Why a command line gives no arguments.
#[derive(Debug)]
pub enum ArgsError {
    Usage(UsageError),
    MissingRouteDir,
    /// A path is given and is empty.
    EmptyPath { argument: &'static str },
    InvalidTimestep(String),
    UnknownKernel(String),
    InvalidThreads(String),
}

/// The count that an option gives, `default` where the option is not used.
pub open spec fn count_or(value: Option<Seq<char>>, default: nat) -> Option<nat> {
    match value {
        Some(text) => count_value(text),
        None => Some(default),
    }
}

/// The kernel that the option gives, the modernized t-route kernel where it is not used.
pub open spec fn chooses_kernel(value: Option<Seq<char>>, kernel: MuskingumCungeKernel) -> bool {
    match value {
        Some(text) => text == kernel.spelled(),
        None => kernel == MuskingumCungeKernel::TRouteModernized,
    }
}

/// The first `k` of the values are not empty, where they are given. The first four are paths.
pub open spec fn no_empty_value(values: Seq<Option<Seq<char>>>, k: int) -> bool {
    forall|i: int|
        #![trigger values[i]]
        0 <= i < k ==> (values[i] matches Some(text) ==> text.len() > 0)
}

/// What the values of a command line, in the order of the command's arguments, come to: a
/// timestep of 300 s, the modernized t-route kernel and `threads` threads unless the command
/// line says otherwise. Of several faults the first in that order is reported.
pub open spec fn decoded(
    values: Seq<Option<Seq<char>>>,
    threads: usize,
    args: Result<Args, ArgsError>,
) -> bool {
    let timestep = count_or(values[4], 300);
    let workers = count_or(values[6], threads as nat);
    match args {
        Ok(a) => {
            &&& no_empty_value(values, 4)
            &&& values[0] == Some(a.route_dir@)
            &&& values[1] == value_of(a.hf)
            &&& values[2] == value_of(a.input_dir)
            &&& values[3] == value_of(a.output_dir)
            &&& timestep == Some(a.internal_timestep_seconds as nat)
            &&& chooses_kernel(values[5], a.kernel)
            &&& workers == Some(a.num_threads as nat)
            &&& a.fast_converge == values[7] is Some
        },
        Err(ArgsError::Usage(_)) => false,
        Err(ArgsError::MissingRouteDir) => values[0] is None,
        Err(ArgsError::EmptyPath { argument }) => {
            &&& values[0] is Some
            &&& exists|k: int|
                0 <= k < 4 && #[trigger] no_empty_value(values, k) && values[k] == Some(
                    Seq::<char>::empty(),
                ) && argument@ == route_shapes()[k].id
        },
        Err(ArgsError::InvalidTimestep(text)) => {
            &&& values[0] is Some
            &&& no_empty_value(values, 4)
            &&& timestep is None
            &&& values[4] == Some(text@)
        },
        Err(ArgsError::UnknownKernel(text)) => {
            &&& values[0] is Some
            &&& no_empty_value(values, 4)
            &&& timestep is Some
            &&& forall|k: MuskingumCungeKernel| !#[trigger] chooses_kernel(values[5], k)
            &&& values[5] == Some(text@)
        },
        Err(ArgsError::InvalidThreads(text)) => {
            &&& values[0] is Some
            &&& no_empty_value(values, 4)
            &&& timestep is Some
            &&& exists|k: MuskingumCungeKernel| #[trigger] chooses_kernel(values[5], k)
            &&& workers is None
            &&& values[6] == Some(text@)
        },
    }
}

/// What the values come to on a machine with some number of threads, one at least.
pub open spec fn decoded_somewhere(
    values: Seq<Option<Seq<char>>>,
    args: Result<Args, ArgsError>,
) -> bool {
    exists|threads: usize| threads >= 1 && #[trigger] decoded(values, threads, args)
}

fn is_empty_text(value: &Option<String>) -> (empty: bool)
    ensures
        empty == (value_of(*value) == Some(Seq::<char>::empty())),
{
    match value {
        Some(text) => {
            assert(text@.len() == 0 ==> text@ =~= Seq::<char>::empty());
            text.as_str().is_empty()
        },
        None => false,
    }
}

/// The first path that is given and empty.
fn empty_path(raw: &RawArgs) -> (argument: Option<&'static str>)
    ensures
        match argument {
            Some(name) => exists|k: int|
                0 <= k < 4 && #[trigger] no_empty_value(raw.in_order(), k) && raw.in_order()[k]
                    == Some(Seq::<char>::empty()) && name@ == route_shapes()[k].id,
            None => no_empty_value(raw.in_order(), 4),
        },
{
    let ghost values = raw.in_order();
    assert(forall|text: Seq<char>| #[trigger] text.len() == 0 ==> text =~= Seq::<char>::empty());
    assert(no_empty_value(values, 0));
    if is_empty_text(&raw.route_dir) {
        return Some("route_dir");
    }
    assert(no_empty_value(values, 1));
    if is_empty_text(&raw.hf) {
        return Some("hf");
    }
    assert(no_empty_value(values, 2));
    if is_empty_text(&raw.input_dir) {
        return Some("input_dir");
    }
    assert(no_empty_value(values, 3));
    if is_empty_text(&raw.output_dir) {
        return Some("output_dir");
    }
    None
}

impl Args {
    /// The arguments that these values stand for.
    pub fn from_values(raw: &RawArgs, available_threads: usize) -> (args: Result<Args, ArgsError>)
        ensures
            decoded(raw.in_order(), available_threads, args),
    {
        let ghost values = raw.in_order();
        let route_dir: String = match &raw.route_dir {
            Some(dir) => dir.clone(),
            None => {
                return Err(ArgsError::MissingRouteDir);
            },
        };
        if let Some(argument) = empty_path(raw) {
            return Err(ArgsError::EmptyPath { argument });
        }
        let internal_timestep_seconds: usize = match &raw.internal_timestep_seconds {
            Some(text) => match parse_count(text.as_str()) {
                Some(n) => n,
                None => {
                    return Err(ArgsError::InvalidTimestep(text.clone()));
                },
            },
            None => 300,
        };
        let kernel: MuskingumCungeKernel = match &raw.kernel {
            Some(text) => match MuskingumCungeKernel::from_name(text.as_str()) {
                Some(k) => k,
                None => {
                    return Err(ArgsError::UnknownKernel(text.clone()));
                },
            },
            None => MuskingumCungeKernel::TRouteModernized,
        };
        assert(chooses_kernel(values[5], kernel));
        let num_threads: usize = match &raw.num_threads {
            Some(text) => match parse_count(text.as_str()) {
                Some(n) => n,
                None => {
                    return Err(ArgsError::InvalidThreads(text.clone()));
                },
            },
            None => available_threads,
        };
        Ok(
            Args {
                route_dir,
                hf: raw.hf.clone(),
                input_dir: raw.input_dir.clone(),
                output_dir: raw.output_dir.clone(),
                internal_timestep_seconds,
                kernel,
                num_threads,
                fast_converge: raw.fast_converge.is_some(),
            },
        )
    }

    /// The arguments on a command line, whose first word is the program's name.
    ///
    /// A line that does not fit the command is refused at the first word that does not fit.
    /// Where no number of threads is given, there are as many as the machine has CPUs, one at
    /// least.
    pub fn parse_from(words: &Vec<String>) -> (args: Result<Args, ArgsError>)
        ensures
            match route_outcome(words_of(words@)) {
                Err(text) => args matches Err(ArgsError::Usage(e)) && e.text() == text,
                Ok(values) => args is Ok && decoded_somewhere(values, args),
            },
    {
        let defs = route_command();
        assert(defs@.len() == shapes(defs@).len());
        assert(route_shapes().len() == 8);
        match read_command_line(
            "rs-route",
            "0.1.0",
            "Network routing simulation tool",
            &defs,
            words,
        ) {
            Err(e) => Err(ArgsError::Usage(e)),
            Ok(values) => {
                let ghost given = values_of(values@);
                assert forall|i: int|
                    #![trigger given[i]]
                    0 <= i < 8 && given[i] is Some implies route_shapes()[i].kind.accepts(
                    given[i]->0,
                ) by {
                    assert(shapes(defs@)[i] == defs@[i].shape());
                    assert(given[i] == value_of(values@[i]));
                }
                assert(given[0] is Some) by {
                    assert(shapes(defs@)[0] == defs@[0].shape());
                    assert(given[0] == value_of(values@[0]));
                }
                let raw = take_values(values);
                let threads: usize = available_cpus();
                let args = Args::from_values(&raw, threads);
                proof {
                    law_accepted_values_make_arguments(given, threads, args);
                }
                assert(decoded_somewhere(given, args));
                args
            },
        }
    }
}

/// Values that are each of the kind their argument asks for always make arguments.
pub proof fn law_accepted_values_make_arguments(
    values: Seq<Option<Seq<char>>>,
    threads: usize,
    args: Result<Args, ArgsError>,
)
    requires
        values.len() == 8,
        values[0] is Some,
        forall|i: int|
            #![trigger values[i]]
            0 <= i < 8 && values[i] is Some ==> route_shapes()[i].kind.accepts(values[i]->0),
        decoded(values, threads, args),
    ensures
        args is Ok,
{
    match args {
        Ok(_) => {},
        Err(ArgsError::EmptyPath { argument }) => {
            let k = choose|k: int|
                0 <= k < 4 && #[trigger] no_empty_value(values, k) && values[k] == Some(
                    Seq::<char>::empty(),
                ) && argument@ == route_shapes()[k].id;
            assert(route_shapes()[k].kind == ValueKind::Path);
        },
        Err(ArgsError::InvalidTimestep(_)) => {
            assert(route_shapes()[4].kind == ValueKind::Count);
            assert(values[4] is Some);
        },
        Err(ArgsError::UnknownKernel(_)) => {
            assert(route_shapes()[5].kind.accepts(values[5]->0));
            let k = choose|k: MuskingumCungeKernel| values[5]->0 == #[trigger] k.spelled();
            assert(chooses_kernel(values[5], k));
        },
        Err(ArgsError::InvalidThreads(_)) => {
            assert(route_shapes()[6].kind == ValueKind::Count);
            assert(values[6] is Some);
        },
        Err(_) => {},
    }
}

fn take_values(values: Vec<Option<String>>) -> (raw: RawArgs)
    requires
        values@.len() == 8,
    ensures
        raw.in_order() == values_of(values@),
{
    let ghost all = values@;
    let mut values = values;
    let fast_converge = values.pop().unwrap();
    let num_threads = values.pop().unwrap();
    let kernel = values.pop().unwrap();
    let internal_timestep_seconds = values.pop().unwrap();
    let output_dir = values.pop().unwrap();
    let input_dir = values.pop().unwrap();
    let hf = values.pop().unwrap();
    let route_dir = values.pop().unwrap();
    let raw = RawArgs {
        route_dir,
        hf,
        input_dir,
        output_dir,
        internal_timestep_seconds,
        kernel,
        num_threads,
        fast_converge,
    };
    assert(raw.in_order() =~= values_of(all));
    raw
}

/// `num_cpus::get`: the number of CPUs this process may use. It depends on the machine; that it
/// is at least 1 is documented, and no more is claimed.
#[verifier::external_body]
fn available_cpus() -> (cpus: usize)
    ensures
        cpus >= 1,
{
    num_cpus::get()
}

/// The directories of a run.
#[derive(Debug)]
pub struct RunPaths {
    pub csv_dir: String,
    pub config_dir: String,
    pub output_dir: String,
}

/// A path given on the command line, or its usual place below the root directory.
pub open spec fn path_or(given: Option<String>, usual: Seq<char>) -> Seq<char> {
    match given {
        Some(path) => path@,
        None => usual,
    }
}

impl Args {
    /// Where the lateral inflow files are.
    pub open spec fn csv_dir(self) -> Seq<char> {
        path_or(self.input_dir, joined(joined(self.route_dir@, "outputs"@), "ngen"@))
    }

    /// Where the hydrofabric is looked for.
    pub open spec fn config_dir(self) -> Seq<char> {
        joined(self.route_dir@, "config"@)
    }

    /// Where the results go.
    pub open spec fn output_dir_path(self) -> Seq<char> {
        path_or(self.output_dir, joined(joined(self.route_dir@, "outputs"@), "troute"@))
    }

    /// The directories that these arguments point at.
    pub fn run_paths(&self) -> (paths: RunPaths)
        ensures
            paths.csv_dir@ == self.csv_dir(),
            paths.config_dir@ == self.config_dir(),
            paths.output_dir@ == self.output_dir_path(),
    {
        let outputs = join_path(self.route_dir.as_str(), "outputs");
        let csv_dir: String = match &self.input_dir {
            Some(dir) => dir.clone(),
            None => join_path(outputs.as_str(), "ngen"),
        };
        let output_dir: String = match &self.output_dir {
            Some(dir) => dir.clone(),
            None => join_path(outputs.as_str(), "troute"),
        };
        RunPaths { csv_dir, config_dir: join_path(self.route_dir.as_str(), "config"), output_dir }
    }
}

/// What the file system says about the paths of a run.
#[derive(Debug)]
pub struct DirFacts {
    /// The root, CSV, config and output paths are existing directories.
    pub root_is_dir: bool,
    pub csv_is_dir: bool,
    pub config_is_dir: bool,
    pub output_is_dir: bool,
    /// The hydrofabric file given on the command line exists.
    pub hf_exists: bool,
    /// The names in the config directory, in the order they are listed; `None` where it cannot
    /// be read.
    pub config_entries: Option<Vec<String>>,
}

/// Why a run cannot be configured.
#[derive(Debug)]
pub enum ConfigError {
    RootNotADirectory { root: String },
    MissingDirectories { dirs: Vec<String> },
    HydrofabricNotFound { path: String },
    ConfigUnreadable,
    NoGeoPackage,
    Timestep(TimestepError),
}

/// Everything a run needs to know.
#[derive(Debug)]
pub struct Config {
    pub csv_dir: String,
    pub gpkg_file: String,
    pub internal_timestep_seconds: usize,
    pub output_dir: String,
    pub kernel: MuskingumCungeKernel,
    pub num_threads: usize,
    pub secant_bracket: SecantBracket,
}

/// The paths, without those that are directories.
pub open spec fn absent(paths: Seq<Seq<char>>, is_dir: Seq<bool>) -> Seq<Seq<char>>
    decreases paths.len(),
{
    if paths.len() == 0 {
        Seq::empty()
    } else {
        let rest = absent(paths.drop_last(), is_dir.drop_last());
        if is_dir.last() {
            rest
        } else {
            rest.push(paths.last())
        }
    }
}

/// The directories that must exist and do not, in the order they are checked. The config
/// directory is only needed to look for a hydrofabric.
pub open spec fn missing_dirs(args: Args, facts: DirFacts) -> Seq<Seq<char>> {
    if args.hf is Some {
        absent(
            seq![args.csv_dir(), args.output_dir_path()],
            seq![facts.csv_is_dir, facts.output_is_dir],
        )
    } else {
        absent(
            seq![args.csv_dir(), args.config_dir(), args.output_dir_path()],
            seq![facts.csv_is_dir, facts.config_is_dir, facts.output_is_dir],
        )
    }
}

/// A file name with the extension `gpkg`: a dot and `gpkg` after at least one character.
pub open spec fn is_gpkg(name: Seq<char>) -> bool {
    name.len() > 5 && name.skip(name.len() - 5) == ".gpkg"@
}

/// Whether a file name has the extension `gpkg`.
pub fn has_gpkg_extension(name: &str) -> (gpkg: bool)
    ensures
        gpkg == is_gpkg(name@),
{
    let chars = chars_of(name);
    let n: usize = chars.len();
    proof {
        reveal_strlit(".gpkg");
    }
    if n <= 5 {
        return false;
    }
    let found = chars[n - 5] == '.' && chars[n - 4] == 'g' && chars[n - 3] == 'p' && chars[n - 2]
        == 'k' && chars[n - 1] == 'g';
    let ghost tail = name@.skip(n - 5);
    proof {
        assert(tail[0] == chars@[n - 5] && tail[1] == chars@[n - 4] && tail[2] == chars@[n - 3]
            && tail[3] == chars@[n - 2] && tail[4] == chars@[n - 1]);
        if found {
            assert(tail =~= ".gpkg"@);
        }
    }
    found
}

/// The position of the first name with the extension `gpkg`.
pub fn find_gpkg(names: &Vec<String>) -> (found: Option<usize>)
    ensures
        match found {
            Some(i) => {
                &&& i < names@.len()
                &&& is_gpkg(names@[i as int]@)
                &&& forall|k: int| 0 <= k < i ==> !is_gpkg(#[trigger] names@[k]@)
            },
            None => forall|k: int| 0 <= k < names@.len() ==> !is_gpkg(#[trigger] names@[k]@),
        },
{
    let mut i: usize = 0;
    while i < names.len()
        invariant
            i <= names@.len(),
            forall|k: int| 0 <= k < i ==> !is_gpkg(#[trigger] names@[k]@),
        decreases names@.len() - i,
    {
        if has_gpkg_extension(names[i].as_str()) {
            return Some(i);
        }
        i += 1;
    }
    None
}

/// What looking for the hydrofabric comes to: the file given on the command line if it exists,
/// otherwise the first GeoPackage in the config directory.
pub open spec fn hydrofabric(args: Args, facts: DirFacts, found: Result<String, ConfigError>) -> bool {
    match args.hf {
        Some(hf) => if facts.hf_exists {
            found matches Ok(path) && path@ == hf@
        } else {
            found matches Err(ConfigError::HydrofabricNotFound { path }) && path@ == hf@
        },
        None => match facts.config_entries {
            None => found matches Err(ConfigError::ConfigUnreadable),
            Some(names) => match found {
                Ok(path) => exists|i: int|
                    0 <= i < names@.len() && is_gpkg(#[trigger] names@[i]@) && path@ == joined(
                        args.config_dir(),
                        names@[i]@,
                    ) && forall|k: int| 0 <= k < i ==> !is_gpkg(#[trigger] names@[k]@),
                Err(ConfigError::NoGeoPackage) => forall|k: int|
                    0 <= k < names@.len() ==> !is_gpkg(#[trigger] names@[k]@),
                Err(_) => false,
            },
        },
    }
}

fn find_hydrofabric(args: &Args, facts: &DirFacts, config_dir: &String) -> (found: Result<
    String,
    ConfigError,
>)
    requires
        config_dir@ == args.config_dir(),
    ensures
        hydrofabric(*args, *facts, found),
{
    match &args.hf {
        Some(hf) => if facts.hf_exists {
            Ok(hf.clone())
        } else {
            Err(ConfigError::HydrofabricNotFound { path: hf.clone() })
        },
        None => match &facts.config_entries {
            None => Err(ConfigError::ConfigUnreadable),
            Some(names) => match find_gpkg(names) {
                Some(i) => {
                    assert(is_gpkg(names@[i as int]@));
                    Ok(join_path(config_dir.as_str(), names[i].as_str()))
                },
                None => Err(ConfigError::NoGeoPackage),
            },
        },
    }
}

fn push_if_absent(dirs: &mut Vec<String>, path: &String, is_dir: bool)
    ensures
        words_of(final(dirs)@) == if is_dir {
            words_of(old(dirs)@)
        } else {
            words_of(old(dirs)@).push(path@)
        },
{
    if !is_dir {
        let ghost before = words_of(dirs@);
        dirs.push(path.clone());
        assert(words_of(dirs@) =~= before.push(path@));
    }
}

fn list_missing(args: &Args, paths: &RunPaths, facts: &DirFacts) -> (dirs: Vec<String>)
    requires
        paths.csv_dir@ == args.csv_dir(),
        paths.config_dir@ == args.config_dir(),
        paths.output_dir@ == args.output_dir_path(),
    ensures
        words_of(dirs@) == missing_dirs(*args, *facts),
{
    let mut dirs: Vec<String> = Vec::new();
    proof {
        let (csv, config, output) = (args.csv_dir(), args.config_dir(), args.output_dir_path());
        let (a, b, c) = (facts.csv_is_dir, facts.config_is_dir, facts.output_is_dir);
        assert(words_of(dirs@) =~= Seq::<Seq<char>>::empty());
        reveal_with_fuel(absent, 4);
        assert(seq![csv, config, output].drop_last() =~= seq![csv, config]);
        assert(seq![csv, config].drop_last() =~= seq![csv]);
        assert(seq![csv, output].drop_last() =~= seq![csv]);
        assert(seq![csv].drop_last() =~= Seq::<Seq<char>>::empty());
        assert(seq![a, b, c].drop_last() =~= seq![a, b]);
        assert(seq![a, b].drop_last() =~= seq![a]);
        assert(seq![a, c].drop_last() =~= seq![a]);
        assert(seq![a].drop_last() =~= Seq::<bool>::empty());
    }
    push_if_absent(&mut dirs, &paths.csv_dir, facts.csv_is_dir);
    if args.hf.is_none() {
        push_if_absent(&mut dirs, &paths.config_dir, facts.config_is_dir);
    }
    push_if_absent(&mut dirs, &paths.output_dir, facts.output_is_dir);
    dirs
}

/// What configuring a run comes to. Faults are looked for in order: the root directory, the
/// other directories, the hydrofabric, the timestep.
pub open spec fn configured(args: Args, facts: DirFacts, config: Result<Config, ConfigError>) -> bool {
    let missing = missing_dirs(args, facts);
    let dt = args.internal_timestep_seconds;
    if !facts.root_is_dir {
        config matches Err(ConfigError::RootNotADirectory { root }) && root@ == args.route_dir@
    } else if missing.len() > 0 {
        config matches Err(ConfigError::MissingDirectories { dirs }) && words_of(dirs@) == missing
    } else {
        exists|found: Result<String, ConfigError>| #[trigger]
            hydrofabric(args, facts, found) && match found {
                Err(e) => config == Err::<Config, ConfigError>(e),
                Ok(gpkg) => if accepted_timestep(dt as int) {
                    config matches Ok(c) && c.gpkg_file == gpkg && c.csv_dir@ == args.csv_dir()
                        && c.output_dir@ == args.output_dir_path() && c.internal_timestep_seconds
                        == dt && c.kernel == args.kernel && c.num_threads == args.num_threads
                        && c.secant_bracket == if args.fast_converge {
                        SecantBracket::Tight
                    } else {
                        SecantBracket::Wide
                    }
                } else {
                    config == Err::<Config, ConfigError>(
                        ConfigError::Timestep(TimestepError { dt }),
                    )
                },
            }
    }
}

/// Checks what a command line asks for against the file system and settles the configuration.
pub fn get_args(args: &Args, facts: &DirFacts) -> (config: Result<Config, ConfigError>)
    ensures
        configured(*args, *facts, config),
{
    let paths = args.run_paths();
    if !facts.root_is_dir {
        return Err(ConfigError::RootNotADirectory { root: args.route_dir.clone() });
    }
    let dirs = list_missing(args, &paths, facts);
    assert(words_of(dirs@).len() == dirs@.len());
    if dirs.len() > 0 {
        return Err(ConfigError::MissingDirectories { dirs });
    }
    let found = find_hydrofabric(args, facts, &paths.config_dir);
    let ghost looked = found;
    match found {
        Err(e) => {
            assert(hydrofabric(*args, *facts, looked));
            Err(e)
        },
        Ok(gpkg_file) => {
            assert(hydrofabric(*args, *facts, looked));
            match validate_timestep(args.internal_timestep_seconds) {
                Err(e) => Err(ConfigError::Timestep(e)),
                Ok(internal_timestep_seconds) => Ok(
                    Config {
                        csv_dir: paths.csv_dir,
                        gpkg_file,
                        internal_timestep_seconds,
                        output_dir: paths.output_dir,
                        kernel: args.kernel,
                        num_threads: args.num_threads,
                        secant_bracket: if args.fast_converge {
                            SecantBracket::Tight
                        } else {
                            SecantBracket::Wide
                        },
                    },
                ),
            }
        },
    }
}

/// A run that could be configured has a timestep that the forcing step is a whole multiple of.
pub proof fn law_configured_runs_cannot_drift(
    args: Args,
    facts: DirFacts,
    config: Result<Config, ConfigError>,
)
    requires
        configured(args, facts, config),
        config is Ok,
    ensures
        ({
            let dt = config->Ok_0.internal_timestep_seconds as int;
            &&& 0 < dt <= EXTERNAL_TIMESTEP_SECONDS
            &&& (EXTERNAL_TIMESTEP_SECONDS as int / dt) * dt == EXTERNAL_TIMESTEP_SECONDS
        }),
{
    law_accepted_timesteps_reconstruct_the_forcing_step(args.internal_timestep_seconds);
}

/// How a value is set off in the banner.
#[derive(Debug, Clone, Copy, PartialEq, Eq, Structural)]
pub enum Emphasis {
    Plain,
    Green,
    Yellow,
    Dimmed,
}

/// One line of the banner.
#[derive(Debug)]
pub struct BannerLine {
    pub label: &'static str,
    pub value: String,
    pub emphasis: Emphasis,
}

/// A banner line as plain mathematics.
#[verifier::ext_equal]
pub struct BannerText {
    pub label: Seq<char>,
    pub value: Seq<char>,
    pub emphasis: Emphasis,
}

pub open spec fn banner_text(lines: Seq<BannerLine>) -> Seq<BannerText> {
    Seq::new(
        lines.len(),
        |i: int|
            BannerText {
                label: lines[i].label@,
                value: lines[i].value@,
                emphasis: lines[i].emphasis,
            },
    )
}

/// The banner of a run: kernel, timestep, threads, the solver where it is not the usual one,
/// and the hydrofabric.
pub open spec fn banner_of(config: Config) -> Seq<BannerText> {
    let head = seq![
        BannerText {
            label: "  Kernel:   "@,
            value: config.kernel.spelled(),
            emphasis: Emphasis::Green,
        },
        BannerText {
            label: "  Timestep: "@,
            value: decimal(config.internal_timestep_seconds as nat) + "s"@,
            emphasis: Emphasis::Plain,
        },
        BannerText {
            label: "  Threads:  "@,
            value: decimal(config.num_threads as nat),
            emphasis: Emphasis::Plain,
        },
    ];
    let solver = if config.secant_bracket == SecantBracket::Tight {
        seq![
            BannerText {
                label: "  Solver:   "@,
                value: "fast-converge"@,
                emphasis: Emphasis::Yellow,
            },
        ]
    } else {
        Seq::empty()
    };
    head + solver + seq![
        BannerText {
            label: "  GeoPackage: "@,
            value: config.gpkg_file@,
            emphasis: Emphasis::Dimmed,
        },
    ]
}

/// The lines that announce a run.
pub fn banner_lines(config: &Config) -> (lines: Vec<BannerLine>)
    ensures
        banner_text(lines@) == banner_of(*config),
{
    let mut lines: Vec<BannerLine> = Vec::new();
    lines.push(
        BannerLine {
            label: "  Kernel:   ",
            value: config.kernel.name().to_string(),
            emphasis: Emphasis::Green,
        },
    );
    let mut timestep: String = String::new();
    push_decimal(&mut timestep, config.internal_timestep_seconds);
    timestep.append("s");
    lines.push(
        BannerLine { label: "  Timestep: ", value: timestep, emphasis: Emphasis::Plain },
    );
    let mut threads: String = String::new();
    push_decimal(&mut threads, config.num_threads);
    lines.push(BannerLine { label: "  Threads:  ", value: threads, emphasis: Emphasis::Plain });
    proof {
        assert(timestep@ =~= decimal(config.internal_timestep_seconds as nat) + "s"@);
        assert(threads@ =~= decimal(config.num_threads as nat));
    }
    if config.secant_bracket == SecantBracket::Tight {
        lines.push(
            BannerLine {
                label: "  Solver:   ",
                value: "fast-converge".to_string(),
                emphasis: Emphasis::Yellow,
            },
        );
    }
    lines.push(
        BannerLine {
            label: "  GeoPackage: ",
            value: config.gpkg_file.clone(),
            emphasis: Emphasis::Dimmed,
        },
    );
    assert(banner_text(lines@) =~= banner_of(*config));
    lines
}

} // verus!
