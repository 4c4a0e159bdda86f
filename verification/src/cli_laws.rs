//! What a command line and the directories of a run come to.

use crate::cli::{
    absent, accepted_timestep, banner_of, banner_text, chooses_kernel, configured, decoded,
    hydrofabric, is_gpkg, lists_suggestions, missing_dirs, no_empty_value, Args, ArgsError,
    BannerLine, Config, ConfigError, DirFacts, Emphasis, RawArgs, TimestepError,
};
use crate::command::{
    clap_outcome, route_labels, route_outcome, route_shapes, value_of, words_of, ArgShape,
    ValueKind,
};
use crate::kernel::muskingum::{MuskingumCungeKernel, SecantBracket};
use crate::text::{comma_list, count_value, decimal, joined};
use crate::text_laws::{
    law_counts_are_read_positionally, law_joined_paths_keep_their_parts, spells,
};
use vstd::prelude::*;

verus! {

/// `steps` timesteps of `dt` seconds are a forcing hour.
pub open spec fn make_an_hour(steps: int, dt: int) -> bool {
    steps * dt == 3600
}

/// The timesteps that can be used are those of which a whole number makes a forcing hour.
pub proof fn law_usable_timesteps_divide_the_hour(dt: int, steps: int)
    ensures
        dt >= 1 && make_an_hour(steps, dt) ==> accepted_timestep(dt),
        accepted_timestep(dt) ==> dt >= 1 && exists|s: int| make_an_hour(s, dt),
{
    if dt >= 1 && make_an_hour(steps, dt) {
        vstd::arithmetic::div_mod::lemma_fundamental_div_mod_converse(3600, dt, steps, 0);
        assert(steps >= 1 && dt <= 3600) by (nonlinear_arith)
            requires
                steps * dt == 3600,
                dt >= 1,
        ;
    }
    if accepted_timestep(dt) {
        vstd::arithmetic::div_mod::lemma_fundamental_div_mod(3600, dt);
        let s = 3600int / dt;
        assert(s * dt == dt * s) by (nonlinear_arith);
        assert(make_an_hour(s, dt));
    }
}

/// The suggestions are all timesteps of a minute or more that can be used, each once and in
/// ascending order, and what a refusal says names the timestep and lists them.
pub proof fn law_refused_timesteps_come_with_suggestions(
    refused: TimestepError,
    list: Seq<usize>,
    i: int,
    j: int,
    d: usize,
)
    requires
        lists_suggestions(list),
    ensures
        0 <= i < j < list.len() ==> list[i] < list[j],
        list.contains(d) <==> d >= 60 && exists|s: int| make_an_hour(s, d as int),
        refused.says(list) == "Internal timestep of "@ + decimal(refused.dt as nat)
            + "s does not divide the "@ + decimal(3600)
            + "s forcing step evenly, so the routing clock would drift from the forcing clock. Valid values of 60s or more: "@
            + comma_list(list),
{
    assert(list.contains(d) <==> accepted_timestep(d as int) && d >= 60);
    law_usable_timesteps_divide_the_hour(d as int, 1);
    if d >= 60 && exists|s: int| make_an_hour(s, d as int) {
        let s = choose|s: int| make_an_hour(s, d as int);
        law_usable_timesteps_divide_the_hour(d as int, s);
    }
}

/// `text` is `n` on a command line: its digits, after one plus sign at most.
pub open spec fn gives_count(text: Seq<char>, n: nat) -> bool {
    &&& n <= usize::MAX
    &&& spells(text, n) || text.len() > 1 && text[0] as int == 43 && spells(text.skip(1), n)
}

/// `text` is the name of `kernel`.
pub open spec fn names_kernel(text: Seq<char>, kernel: MuskingumCungeKernel) -> bool {
    match kernel {
        MuskingumCungeKernel::RouteRs => text == "route-rs"@,
        MuskingumCungeKernel::RouteRsSimd => text == "route-rs-simd"@,
        MuskingumCungeKernel::TRouteModernized => text == "t-route-modernized"@,
        MuskingumCungeKernel::TRouteLegacy => text == "t-route-legacy"@,
        MuskingumCungeKernel::CMuskingumCunge => text == "c-muskingum-cunge"@,
    }
}

/// Every value on a command line takes effect, each on its own setting: the paths as they are
/// given, the timestep and the threads as counts, the kernel by its name, and the tighter bracket
/// by being there. Where a value is not given, the timestep is 300 seconds, the kernel the
/// modernized t-route one, and the threads those that there are.
pub proof fn law_options_take_effect(
    values: Seq<Option<Seq<char>>>,
    threads: usize,
    args: Args,
)
    requires
        values.len() == 8,
        decoded(values, threads, Ok(args)),
    ensures
        values[0] == Some(args.route_dir@),
        args.route_dir@.len() > 0,
        match args.hf {
            Some(path) => values[1] == Some(path@) && path@.len() > 0,
            None => values[1] is None,
        },
        match args.input_dir {
            Some(path) => values[2] == Some(path@) && path@.len() > 0,
            None => values[2] is None,
        },
        match args.output_dir {
            Some(path) => values[3] == Some(path@) && path@.len() > 0,
            None => values[3] is None,
        },
        match values[4] {
            Some(text) => gives_count(text, args.internal_timestep_seconds as nat),
            None => args.internal_timestep_seconds == 300,
        },
        match values[5] {
            Some(text) => names_kernel(text, args.kernel),
            None => args.kernel == MuskingumCungeKernel::TRouteModernized,
        },
        match values[6] {
            Some(text) => gives_count(text, args.num_threads as nat),
            None => args.num_threads == threads,
        },
        args.fast_converge <==> values[7] is Some,
{
    assert(values[0] is Some);
    let (a, b, c, d) = (values[0], values[1], values[2], values[3]);
    if let Some(text) = values[4] {
        law_counts_are_read_positionally(text, args.internal_timestep_seconds as nat);
    }
    if let Some(text) = values[6] {
        law_counts_are_read_positionally(text, args.num_threads as nat);
    }
}

/// Values are refused for what is wrong with them, the first fault in the order of the arguments:
/// the root directory is missing; a path is empty, with all before it sound; the timestep or the
/// threads are no count; the kernel is none of the five.
pub proof fn law_refused_values_are_named(
    values: Seq<Option<Seq<char>>>,
    threads: usize,
    error: ArgsError,
    n: nat,
    k: MuskingumCungeKernel,
)
    requires
        values.len() == 8,
        decoded(values, threads, Err(error)),
    ensures
        error is MissingRouteDir <==> values[0] is None,
        match error {
            ArgsError::Usage(_) => false,
            ArgsError::MissingRouteDir => true,
            ArgsError::EmptyPath { argument } => {
                let (a, b, c, d) = (values[0], values[1], values[2], values[3]);
                let empty = Some(Seq::<char>::empty());
                ||| a == empty && argument@ == "route_dir"@
                ||| a != empty && b == empty && argument@ == "hf"@
                ||| a != empty && b != empty && c == empty && argument@ == "input_dir"@
                ||| a != empty && b != empty && c != empty && d == empty && argument@
                    == "output_dir"@
            },
            ArgsError::InvalidTimestep(text) => values[4] == Some(text@) && !gives_count(text@, n),
            ArgsError::UnknownKernel(text) => values[5] == Some(text@) && !names_kernel(text@, k),
            ArgsError::InvalidThreads(text) => values[6] == Some(text@) && !gives_count(text@, n),
        },
{
    match error {
        ArgsError::EmptyPath { argument } => {
            let at = choose|at: int|
                0 <= at < 4 && #[trigger] no_empty_value(values, at) && values[at] == Some(
                    Seq::<char>::empty(),
                ) && argument@ == route_shapes()[at].id;
            let (a, b, c, d) = (values[0], values[1], values[2], values[3]);
        },
        ArgsError::InvalidTimestep(text) => {
            law_counts_are_read_positionally(text@, n);
        },
        ArgsError::UnknownKernel(text) => {
            assert(!chooses_kernel(values[5], k));
        },
        ArgsError::InvalidThreads(text) => {
            law_counts_are_read_positionally(text@, n);
        },
        _ => {},
    }
}

/// The kinds of values: a path has at least one character, a count is one in decimal that fits, a
/// kernel is one of the five names, and a mark is anything; a value that is not of its kind is
/// refused with what it would have to be.
pub proof fn law_kinds_of_values(text: Seq<char>, n: nat, k: MuskingumCungeKernel)
    ensures
        ValueKind::Path.accepts(text) <==> text.len() > 0,
        gives_count(text, n) ==> ValueKind::Count.accepts(text),
        ValueKind::Count.accepts(text) ==> exists|m: nat| gives_count(text, m),
        names_kernel(text, k) ==> ValueKind::Kernel.accepts(text),
        ValueKind::Kernel.accepts(text) ==> exists|m: MuskingumCungeKernel| names_kernel(text, m),
        ValueKind::Mark.accepts(text),
        ValueKind::Path.refusal() == "a path is required"@,
        ValueKind::Count.refusal() == "not a whole number that fits"@,
        ValueKind::Kernel.refusal()
            == "possible values: route-rs, route-rs-simd, t-route-modernized, t-route-legacy, c-muskingum-cunge"@,
{
    law_counts_are_read_positionally(text, n);
    if ValueKind::Count.accepts(text) {
        let m = count_value(text)->0;
        law_counts_are_read_positionally(text, m);
        assert(gives_count(text, m));
    }
    if names_kernel(text, k) {
        assert(text == k.spelled());
    }
    if ValueKind::Kernel.accepts(text) {
        let m = choose|m: MuskingumCungeKernel| text == #[trigger] m.spelled();
        assert(names_kernel(text, m));
    }
}

/// The directories of a run are those on the command line, and otherwise `outputs/ngen`, `config`
/// and `outputs/troute` below the root directory, whether or not it is written with a slash at its
/// end.
pub proof fn law_directories_have_their_usual_places(args: Args, root: Seq<char>)
    requires
        root.len() > 0,
        root[root.len() - 1] != '/',
        args.route_dir@ == root || args.route_dir@ == root + seq!['/'],
    ensures
        args.config_dir() == root + "/config"@,
        match args.input_dir {
            Some(dir) => args.csv_dir() == dir@,
            None => args.csv_dir() == root + "/outputs/ngen"@,
        },
        match args.output_dir {
            Some(dir) => args.output_dir_path() == dir@,
            None => args.output_dir_path() == root + "/outputs/troute"@,
        },
{
    let given = args.route_dir@;
    reveal_strlit("outputs");
    reveal_strlit("ngen");
    reveal_strlit("troute");
    reveal_strlit("config");
    reveal_strlit("/config");
    reveal_strlit("/outputs/ngen");
    reveal_strlit("/outputs/troute");
    law_joined_paths_keep_their_parts(given, "outputs"@);
    law_joined_paths_keep_their_parts(given, "config"@);
    let outputs = joined(given, "outputs"@);
    assert(given[given.len() - 1] == '/' <==> given != root);
    assert(outputs[outputs.len() - 1] == 's');
    law_joined_paths_keep_their_parts(outputs, "ngen"@);
    law_joined_paths_keep_their_parts(outputs, "troute"@);
    assert(joined(given, "config"@) =~= root + "/config"@);
    assert(joined(outputs, "ngen"@) =~= root + "/outputs/ngen"@);
    assert(joined(outputs, "troute"@) =~= root + "/outputs/troute"@);
}

/// A GeoPackage is a file whose name is anything, at least one character, and then `.gpkg`.
pub proof fn law_geopackages_end_in_gpkg(stem: Seq<char>, name: Seq<char>)
    ensures
        is_gpkg(stem + seq!['.', 'g', 'p', 'k', 'g']) <==> stem.len() > 0,
        is_gpkg(name) ==> name == name.take(name.len() - 5) + seq!['.', 'g', 'p', 'k', 'g'],
{
    reveal_strlit(".gpkg");
    assert(".gpkg"@ =~= seq!['.', 'g', 'p', 'k', 'g']);
    let full = stem + seq!['.', 'g', 'p', 'k', 'g'];
    assert(full.skip(full.len() - 5) =~= seq!['.', 'g', 'p', 'k', 'g']);
    if is_gpkg(name) {
        assert(name =~= name.take(name.len() - 5) + name.skip(name.len() - 5));
    }
}

/// A path in a list of its own where it is missing, nothing where it is there.
pub open spec fn if_missing(path: Seq<char>, is_there: bool) -> Seq<Seq<char>> {
    if is_there {
        Seq::empty()
    } else {
        seq![path]
    }
}

proof fn lemma_missing(args: Args, facts: DirFacts)
    ensures
        missing_dirs(args, facts) == if_missing(args.csv_dir(), facts.csv_is_dir) + if_missing(
            args.config_dir(),
            facts.config_is_dir || args.hf is Some,
        ) + if_missing(args.output_dir_path(), facts.output_is_dir),
{
    let (csv, config, output) = (args.csv_dir(), args.config_dir(), args.output_dir_path());
    let (a, b, c) = (facts.csv_is_dir, facts.config_is_dir, facts.output_is_dir);
    reveal_with_fuel(absent, 4);
    assert(seq![csv, config, output].drop_last() =~= seq![csv, config]);
    assert(seq![csv, config].drop_last() =~= seq![csv]);
    assert(seq![csv, output].drop_last() =~= seq![csv]);
    assert(seq![csv].drop_last() =~= Seq::<Seq<char>>::empty());
    assert(seq![a, b, c].drop_last() =~= seq![a, b]);
    assert(seq![a, b].drop_last() =~= seq![a]);
    assert(seq![a, c].drop_last() =~= seq![a]);
    assert(seq![a].drop_last() =~= Seq::<bool>::empty());
    assert(missing_dirs(args, facts) =~= if_missing(csv, a) + if_missing(
        config,
        b || args.hf is Some,
    ) + if_missing(output, c));
}

/// A run that is configured has all its directories, the hydrofabric that was asked for or the
/// first GeoPackage listed in the config directory, a timestep of which a whole number makes an
/// hour, and every setting of the command line.
pub proof fn law_configurations_are_sound(args: Args, facts: DirFacts, config: Config)
    requires
        configured(args, facts, Ok(config)),
    ensures
        facts.root_is_dir,
        facts.csv_is_dir,
        facts.output_is_dir,
        facts.config_is_dir || args.hf is Some,
        match args.hf {
            Some(hf) => facts.hf_exists && config.gpkg_file@ == hf@,
            None => facts.config_entries matches Some(names) && exists|i: int|
                0 <= i < names@.len() && is_gpkg(#[trigger] names@[i]@) && config.gpkg_file@
                    == joined(args.config_dir(), names@[i]@) && forall|k: int|
                    0 <= k < i ==> !is_gpkg(#[trigger] names@[k]@),
        },
        config.csv_dir@ == args.csv_dir(),
        config.output_dir@ == args.output_dir_path(),
        config.internal_timestep_seconds == args.internal_timestep_seconds,
        config.internal_timestep_seconds >= 1,
        exists|s: int| make_an_hour(s, config.internal_timestep_seconds as int),
        config.kernel == args.kernel,
        config.num_threads == args.num_threads,
        config.secant_bracket == SecantBracket::Tight <==> args.fast_converge,
{
    lemma_missing(args, facts);
    let found = choose|found: Result<String, ConfigError>| #[trigger]
        hydrofabric(args, facts, found) && match found {
            Err(e) => Ok::<Config, ConfigError>(config) == Err::<Config, ConfigError>(e),
            Ok(gpkg) => config.gpkg_file == gpkg,
        };
    law_usable_timesteps_divide_the_hour(args.internal_timestep_seconds as int, 1);
}

/// A run that cannot be configured is refused for the first thing that is wrong: the root is no
/// directory; directories are missing, all of which are listed in order; the hydrofabric is not
/// there, or none can be looked for, or none is found; the timestep makes no hour.
pub proof fn law_faulty_configurations_are_refused(
    args: Args,
    facts: DirFacts,
    error: ConfigError,
    k: int,
    s: int,
)
    requires
        configured(args, facts, Err(error)),
    ensures
        error is RootNotADirectory <==> !facts.root_is_dir,
        error is MissingDirectories <==> facts.root_is_dir && !(facts.csv_is_dir
            && facts.output_is_dir && (facts.config_is_dir || args.hf is Some)),
        match error {
            ConfigError::RootNotADirectory { root } => root@ == args.route_dir@,
            ConfigError::MissingDirectories { dirs } => words_of(dirs@) == if_missing(
                args.csv_dir(),
                facts.csv_is_dir,
            ) + if_missing(args.config_dir(), facts.config_is_dir || args.hf is Some) + if_missing(
                args.output_dir_path(),
                facts.output_is_dir,
            ),
            ConfigError::HydrofabricNotFound { path } => args.hf matches Some(hf) && path@ == hf@
                && !facts.hf_exists,
            ConfigError::ConfigUnreadable => args.hf is None && facts.config_entries is None,
            ConfigError::NoGeoPackage => {
                &&& args.hf is None
                &&& facts.config_entries matches Some(names) && (0 <= k < names@.len()
                    ==> !is_gpkg(names@[k]@))
            },
            ConfigError::Timestep(refused) => refused.dt == args.internal_timestep_seconds && !(
            refused.dt >= 1 && make_an_hour(s, refused.dt as int)),
        },
{
    lemma_missing(args, facts);
    if facts.root_is_dir && missing_dirs(args, facts).len() == 0 {
        let dt = args.internal_timestep_seconds;
        let found = choose|found: Result<String, ConfigError>| #[trigger]
            hydrofabric(args, facts, found) && match found {
                Err(e) => Err::<Config, ConfigError>(error) == Err::<Config, ConfigError>(e),
                Ok(_) => !accepted_timestep(dt as int) && error == ConfigError::Timestep(
                    TimestepError { dt },
                ),
            };
        law_usable_timesteps_divide_the_hour(dt as int, s);
    }
}

/// The banner says the kernel, the timestep in seconds, the threads, that the solver is the fast
/// one where it is, and the hydrofabric, in that order.
pub proof fn law_the_banner_says_what_runs(config: Config, lines: Seq<BannerLine>)
    requires
        banner_text(lines) == banner_of(config),
    ensures
        ({
            let fast = config.secant_bracket == SecantBracket::Tight;
            &&& lines.len() == if fast {
                5int
            } else {
                4
            }
            &&& lines[0].label@ == "  Kernel:   "@ && names_kernel(lines[0].value@, config.kernel)
                && lines[0].emphasis == Emphasis::Green
            &&& lines[1].label@ == "  Timestep: "@ && lines[1].value@ == decimal(
                config.internal_timestep_seconds as nat,
            ) + "s"@ && lines[1].emphasis == Emphasis::Plain
            &&& lines[2].label@ == "  Threads:  "@ && lines[2].value@ == decimal(
                config.num_threads as nat,
            ) && lines[2].emphasis == Emphasis::Plain
            &&& fast ==> lines[3].label@ == "  Solver:   "@ && lines[3].value@ == "fast-converge"@
                && lines[3].emphasis == Emphasis::Yellow
            &&& lines.last().label@ == "  GeoPackage: "@ && lines.last().value@
                == config.gpkg_file@ && lines.last().emphasis == Emphasis::Dimmed
        }),
{
    let texts = banner_text(lines);
    let last = lines.len() - 1;
    assert(texts.len() == lines.len());
    assert(texts[0] == banner_of(config)[0]);
    assert(texts[1] == banner_of(config)[1]);
    assert(texts[2] == banner_of(config)[2]);
    assert(texts[3] == banner_of(config)[3]);
    assert(texts[last] == banner_of(config)[last]);
}

/// The values of a command line stand in the order of the command's arguments.
pub proof fn law_values_stand_in_order(raw: RawArgs)
    ensures
        raw.in_order().len() == 8,
        raw.in_order()[0] == value_of(raw.route_dir),
        raw.in_order()[1] == value_of(raw.hf),
        raw.in_order()[2] == value_of(raw.input_dir),
        raw.in_order()[3] == value_of(raw.output_dir),
        raw.in_order()[4] == value_of(raw.internal_timestep_seconds),
        raw.in_order()[5] == value_of(raw.kernel),
        raw.in_order()[6] == value_of(raw.num_threads),
        raw.in_order()[7] == value_of(raw.fast_converge),
{
}

/// An option that takes one value and may be left out.
pub open spec fn optional(shape: ArgShape, long: Seq<char>, kind: ValueKind) -> bool {
    &&& shape.long == Some(long)
    &&& shape.kind == kind
    &&& !shape.required
    &&& shape.values == 1
    &&& shape.bare is None
}

/// The command takes the root directory in any case, six options with a value and one without, each
/// by its long name, and four of them by a letter too; the timestep has two letters. That is how
/// every command line is read.
pub proof fn law_the_command_has_its_arguments(words: Seq<Seq<char>>)
    ensures
        route_outcome(words) == clap_outcome(
            "rs-route"@,
            "0.1.0"@,
            "Network routing simulation tool"@,
            route_shapes(),
            route_labels(),
            words,
        ),
        ({
            let args = route_shapes();
            &&& args.len() == 8
            &&& args[0].required && args[0].long is None && args[0].short is None && args[0].alias
                is None && args[0].kind == ValueKind::Path && args[0].values == 1
            &&& optional(args[1], "hf"@, ValueKind::Path) && args[1].short is None
                && args[1].alias is None
            &&& optional(args[2], "input-dir"@, ValueKind::Path) && args[2].short is None
                && args[2].alias is None
            &&& optional(args[3], "output-dir"@, ValueKind::Path) && args[3].short == Some('o')
                && args[3].alias is None
            &&& optional(args[4], "internal-timestep-seconds"@, ValueKind::Count) && args[4].short
                == Some('i') && args[4].alias == Some('t')
            &&& optional(args[5], "kernel"@, ValueKind::Kernel) && args[5].short == Some('k')
                && args[5].alias is None
            &&& optional(args[6], "num-threads"@, ValueKind::Count) && args[6].short == Some('n')
                && args[6].alias is None
            &&& args[7].long == Some("fast-converge"@) && args[7].values == 0 && args[7].bare
                is Some && !args[7].required && args[7].short is None && args[7].alias is None
        }),
{
}

} // verus!
