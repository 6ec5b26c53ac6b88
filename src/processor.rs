//! The post-install processor steps of the legacy-installer loader family:
//! which steps run, and the classpath and arguments each one is given.

use vstd::prelude::*;
use crate::error::LaunchError;
use crate::coordinate::{coordinate_path_spec, library_name_to_path};
use crate::text::{chars_of, string_of, replaced, replace_all, contains, contains_seq};
use crate::libraries::LibraryEntry;
use crate::loader::{Loader, LoaderFamily};

verus! {

/// One processor step of an install profile.
#[derive(Clone, Debug)]
pub struct Processor {
    /// Coordinate of the jar whose manifest names the main class.
    pub jar: Option<String>,
    /// Coordinates of the step's classpath.
    pub classpath: Vec<String>,
    /// Argument templates.
    pub args: Vec<String>,
    /// Sides the step runs on; every side when absent.
    pub sides: Option<Vec<String>>,
}

/// One row of an install profile's data table.
#[derive(Clone, Debug)]
pub struct DataEntry {
    pub key: String,
    pub client: String,
    pub server: String,
}

/// Paths that argument tokens resolve against.
#[derive(Clone, Debug)]
pub struct ProcessorContext {
    /// Root of the library store.
    pub libraries_path: String,
    /// Directory separator of the target platform.
    pub separator: char,
    /// Classpath separator of the target platform.
    pub classpath_separator: String,
    /// Path of the vanilla client jar.
    pub minecraft_jar: String,
    /// Path of the cached compressed client artifact.
    pub client_lzma: String,
}

/// What running one step takes.
#[derive(Clone, Debug)]
pub struct ProcessorInvocation {
    /// Classpath of the step.
    pub classpath: String,
    /// Path of the jar whose manifest names the main class, if the step names one.
    pub main_jar: Option<String>,
    /// Resolved arguments.
    pub args: Vec<String>,
}

/// The side list names the client.
pub open spec fn names_client_spec(v: Seq<String>) -> bool {
    exists|i: int| #![trigger v[i]] 0 <= i < v.len() && v[i]@ == "client"@
}

/// The step runs on the client: it names no sides, or names `client`.
pub open spec fn runs_on_client_spec(sides: Option<Vec<String>>) -> bool {
    match sides {
        None => true,
        Some(v) => names_client_spec(v@),
    }
}

fn names_client(v: &Vec<String>) -> (r: bool)
    ensures
        r == names_client_spec(v@),
{
    let client = String::from_str("client");
    let mut i: usize = 0;
    while i < v.len()
        invariant
            i <= v@.len(),
            client@ == "client"@,
            forall|k: int| 0 <= k < i ==> v@[k]@ != "client"@,
        decreases v@.len() - i,
    {
        if v[i] == client {
            proof {
                assert(0 <= i < v@.len() && v@[i as int]@ == "client"@);
            }
            return true;
        }
        i += 1;
    }
    false
}

/// Whether a step with these sides runs on the client.
pub fn runs_on_client(sides: &Option<Vec<String>>) -> (r: bool)
    ensures
        r == runs_on_client_spec(*sides),
{
    match sides {
        None => true,
        Some(v) => names_client(v),
    }
}

/// The client value of the first row whose key is `key`.
pub open spec fn lookup_spec(data: Seq<DataEntry>, key: Seq<char>) -> Option<Seq<char>>
    decreases data.len(),
{
    if data.len() == 0 {
        None
    } else {
        match lookup_spec(data.drop_last(), key) {
            Some(v) => Some(v),
            None => if data.last().key@ == key {
                Some(data.last().client@)
            } else {
                None
            },
        }
    }
}

proof fn lemma_lookup_prefix(data: Seq<DataEntry>, n: int, key: Seq<char>)
    requires
        0 <= n <= data.len(),
        lookup_spec(data.take(n), key) is Some,
    ensures
        lookup_spec(data, key) == lookup_spec(data.take(n), key),
    decreases data.len(),
{
    if n < data.len() {
        assert(data.drop_last().take(n) =~= data.take(n));
        lemma_lookup_prefix(data.drop_last(), n, key);
    } else {
        assert(data.take(n) =~= data);
    }
}

/// Looks `key` up in the data table, for the client side.
pub fn lookup_data(data: &Vec<DataEntry>, key: &String) -> (r: Option<String>)
    ensures
        match r {
            Some(v) => lookup_spec(data@, key@) == Some(v@),
            None => lookup_spec(data@, key@) is None,
        },
{
    let mut i: usize = 0;
    while i < data.len()
        invariant
            i <= data@.len(),
            lookup_spec(data@.take(i as int), key@) is None,
        decreases data@.len() - i,
    {
        proof {
            assert(data@.take(i as int + 1).drop_last() =~= data@.take(i as int));
        }
        if data[i].key == *key {
            proof {
                lemma_lookup_prefix(data@, i as int + 1, key@);
            }
            return Some(data[i].client.clone());
        }
        i += 1;
    }
    proof {
        assert(data@.take(data@.len() as int) =~= data@);
    }
    None
}

/// `s` is wrapped in `open` ... `close`.
pub open spec fn wrapped(s: Seq<char>, open: char, close: char) -> bool {
    s.len() >= 2 && s[0] == open && s.last() == close
}

/// `s` without its first and last characters.
pub open spec fn inner(s: Seq<char>) -> Seq<char> {
    s.subrange(1, s.len() - 1)
}

/// The library path of a coordinate, or the malformed-metadata error.
pub open spec fn library_path_spec(root: Seq<char>, coord: Seq<char>, sep: char) -> Result<Seq<char>, LaunchError> {
    match coordinate_path_spec(coord, sep) {
        Some(p) => Ok(root + seq![sep] + p),
        None => Err(LaunchError::MalformedManifest),
    }
}

/// A data-table value as an argument: a bracketed coordinate becomes its
/// library path, a reference to the compressed client artifact becomes the
/// cached artifact's path, anything else stands as it is.
pub open spec fn data_value_spec(v: Seq<char>, ctx: ProcessorContext) -> Result<Seq<char>, LaunchError> {
    if wrapped(v, '[', ']') {
        library_path_spec(ctx.libraries_path@, inner(v), ctx.separator)
    } else if contains_seq(v, "client.lzma"@) {
        Ok(ctx.client_lzma@)
    } else {
        Ok(v)
    }
}

/// One argument template after `{SIDE}` and `{MINECRAFT_JAR}` are filled in:
/// `[coord]` becomes a library path, `{name}` the data table's client
/// value for `name` (see [`data_value_spec`]; a missing name is malformed
/// metadata), anything else stands as it is.
pub open spec fn argument_spec(arg: Seq<char>, data: Seq<DataEntry>, ctx: ProcessorContext) -> Result<Seq<char>, LaunchError> {
    let a = replaced(replaced(arg, "{SIDE}"@, "client"@), "{MINECRAFT_JAR}"@, ctx.minecraft_jar@);
    if wrapped(a, '[', ']') {
        library_path_spec(ctx.libraries_path@, inner(a), ctx.separator)
    } else if wrapped(a, '{', '}') {
        match lookup_spec(data, inner(a)) {
            Some(v) => data_value_spec(v, ctx),
            None => Err(LaunchError::MalformedManifest),
        }
    } else {
        Ok(a)
    }
}

/// A `Result` of strings viewed as one of character sequences.
pub open spec fn result_view(r: Result<String, LaunchError>) -> Result<Seq<char>, LaunchError> {
    match r {
        Ok(s) => Ok(s@),
        Err(e) => Err(e),
    }
}

fn is_wrapped(s: &Vec<char>, open: char, close: char) -> (r: bool)
    ensures
        r == wrapped(s@, open, close),
{
    s.len() >= 2 && s[0] == open && s[s.len() - 1] == close
}

fn inner_string(s: &Vec<char>) -> (r: String)
    requires
        s@.len() >= 2,
    ensures
        r@ == inner(s@),
{
    let mut v: Vec<char> = Vec::new();
    let mut i: usize = 1;
    while i < s.len() - 1
        invariant
            1 <= i <= s@.len() - 1,
            v@ == s@.subrange(1, i as int),
        decreases s@.len() - i,
    {
        v.push(s[i]);
        proof {
            assert(s@.subrange(1, i as int + 1) =~= s@.subrange(1, i as int).push(s@[i as int]));
        }
        i += 1;
    }
    string_of(&v)
}

fn library_path(ctx: &ProcessorContext, coord: &String) -> (r: Result<String, LaunchError>)
    ensures
        result_view(r) == library_path_spec(ctx.libraries_path@, coord@, ctx.separator),
{
    library_name_to_path(ctx.libraries_path.as_str(), coord.as_str(), ctx.separator)
}

fn data_value(v: &String, ctx: &ProcessorContext) -> (r: Result<String, LaunchError>)
    ensures
        result_view(r) == data_value_spec(v@, *ctx),
{
    let cs = chars_of(v.as_str());
    if is_wrapped(&cs, '[', ']') {
        let coord = inner_string(&cs);
        library_path(ctx, &coord)
    } else if contains(&cs, &chars_of("client.lzma")) {
        Ok(ctx.client_lzma.clone())
    } else {
        Ok(v.clone())
    }
}

/// Resolves one argument template of a processor step.
pub fn resolve_argument(arg: &String, data: &Vec<DataEntry>, ctx: &ProcessorContext) -> (r: Result<String, LaunchError>)
    ensures
        result_view(r) == argument_spec(arg@, data@, *ctx),
{
    let a0 = chars_of(arg.as_str());
    let a1 = replace_all(&a0, &chars_of("{SIDE}"), &chars_of("client"));
    let a = replace_all(&a1, &chars_of("{MINECRAFT_JAR}"), &chars_of(ctx.minecraft_jar.as_str()));
    if is_wrapped(&a, '[', ']') {
        let coord = inner_string(&a);
        library_path(ctx, &coord)
    } else if is_wrapped(&a, '{', '}') {
        let key = inner_string(&a);
        match lookup_data(data, &key) {
            Some(v) => data_value(&v, ctx),
            None => Err(LaunchError::MalformedManifest),
        }
    } else {
        Ok(string_of(&a))
    }
}

/// Every coordinate in the list names a path.
pub open spec fn coords_ok(coords: Seq<String>, sep: char) -> bool {
    forall|i: int| 0 <= i < coords.len() ==> (#[trigger] coordinate_path_spec(coords[i]@, sep)) is Some
}

/// Library paths of the coordinates, each followed by the classpath separator.
pub open spec fn classpath_entries(coords: Seq<String>, ctx: ProcessorContext) -> Seq<char>
    decreases coords.len(),
{
    if coords.len() == 0 {
        Seq::<char>::empty()
    } else {
        classpath_entries(coords.drop_last(), ctx) + ctx.libraries_path@ + seq![ctx.separator]
            + coordinate_path_spec(coords.last()@, ctx.separator)->Some_0 + ctx.classpath_separator@
    }
}

/// The jar of a step, as a library path, if it names one.
pub open spec fn main_jar_spec(p: Processor, ctx: ProcessorContext) -> Option<Seq<char>> {
    match p.jar {
        Some(j) => Some(ctx.libraries_path@ + seq![ctx.separator] + coordinate_path_spec(j@, ctx.separator)->Some_0),
        None => None,
    }
}

/// All arguments of a list resolve.
pub open spec fn args_ok(args: Seq<String>, data: Seq<DataEntry>, ctx: ProcessorContext) -> bool {
    forall|i: int| 0 <= i < args.len() ==> (#[trigger] argument_spec(args[i]@, data, ctx)) is Ok
}

/// A step can be planned: every coordinate names a path and every argument resolves.
pub open spec fn step_ok(p: Processor, data: Seq<DataEntry>, ctx: ProcessorContext) -> bool {
    &&& coords_ok(p.classpath@, ctx.separator)
    &&& (p.jar matches Some(j) ==> coordinate_path_spec(j@, ctx.separator) is Some)
    &&& args_ok(p.args@, data, ctx)
}

/// An invocation is the plan of a step: its classpath entries then its jar,
/// the jar's path, and its resolved arguments in order.
pub open spec fn invocation_of(inv: ProcessorInvocation, p: Processor, data: Seq<DataEntry>, ctx: ProcessorContext) -> bool {
    &&& inv.classpath@ == classpath_entries(p.classpath@, ctx) + match main_jar_spec(p, ctx) {
        Some(j) => j,
        None => Seq::<char>::empty(),
    }
    &&& match (inv.main_jar, main_jar_spec(p, ctx)) {
        (Some(a), Some(b)) => a@ == b,
        (None, None) => true,
        _ => false,
    }
    &&& inv.args@.len() == p.args@.len()
    &&& forall|i: int| 0 <= i < p.args@.len() ==> Ok::<Seq<char>, LaunchError>(#[trigger] inv.args@[i]@) == argument_spec(p.args@[i]@, data, ctx)
}

/// The steps that run on the client, in file order.
pub open spec fn client_steps(ps: Seq<Processor>) -> Seq<Processor> {
    ps.filter(|p: Processor| runs_on_client_spec(p.sides))
}

fn step_classpath(p: &Processor, ctx: &ProcessorContext) -> (r: Result<(String, Option<String>), LaunchError>)
    ensures
        match r {
            Ok((cp, jar)) => coords_ok(p.classpath@, ctx.separator) && (p.jar matches Some(j)
                ==> coordinate_path_spec(j@, ctx.separator) is Some) && cp@ == classpath_entries(
                p.classpath@,
                *ctx,
            ) + match main_jar_spec(*p, *ctx) {
                Some(j) => j,
                None => Seq::<char>::empty(),
            } && match (jar, main_jar_spec(*p, *ctx)) {
                (Some(a), Some(b)) => a@ == b,
                (None, None) => true,
                _ => false,
            },
            Err(e) => e == LaunchError::MalformedManifest && !(coords_ok(p.classpath@, ctx.separator) && (
            p.jar matches Some(j) ==> coordinate_path_spec(j@, ctx.separator) is Some)),
        },
{
    let mut cp = String::new();
    let mut i: usize = 0;
    while i < p.classpath.len()
        invariant
            i <= p.classpath@.len(),
            coords_ok(p.classpath@.take(i as int), ctx.separator),
            cp@ == classpath_entries(p.classpath@.take(i as int), *ctx),
        decreases p.classpath@.len() - i,
    {
        proof {
            assert(p.classpath@.take(i as int + 1).drop_last() =~= p.classpath@.take(i as int));
        }
        match library_path(ctx, &p.classpath[i]) {
            Ok(path) => {
                cp.append(path.as_str());
                cp.append(ctx.classpath_separator.as_str());
                proof {
                    assert forall|k: int| 0 <= k < i + 1 implies (#[trigger] coordinate_path_spec(
                        p.classpath@.take(i as int + 1)[k]@,
                        ctx.separator,
                    )) is Some by {
                        if k < i {
                            assert(p.classpath@.take(i as int)[k] == p.classpath@.take(i as int + 1)[k]);
                        }
                    }
                }
            },
            Err(e) => {
                proof {
                    assert(coordinate_path_spec(p.classpath@[i as int]@, ctx.separator) is None);
                }
                return Err(e);
            },
        }
        i += 1;
    }
    proof {
        assert(p.classpath@.take(p.classpath@.len() as int) =~= p.classpath@);
    }
    match &p.jar {
        Some(j) => {
            let path = library_path(ctx, j)?;
            cp.append(path.as_str());
            Ok((cp, Some(path)))
        },
        None => {
            proof {
                assert(cp@ + Seq::<char>::empty() =~= cp@);
            }
            Ok((cp, None))
        },
    }
}

fn step_args(args: &Vec<String>, data: &Vec<DataEntry>, ctx: &ProcessorContext) -> (r: Result<Vec<String>, LaunchError>)
    ensures
        match r {
            Ok(v) => args_ok(args@, data@, *ctx) && v@.len() == args@.len() && forall|i: int|
                0 <= i < args@.len() ==> Ok::<Seq<char>, LaunchError>(#[trigger] v@[i]@) == argument_spec(args@[i]@, data@, *ctx),
            Err(e) => e == LaunchError::MalformedManifest && !args_ok(args@, data@, *ctx),
        },
{
    let mut out: Vec<String> = Vec::new();
    let mut i: usize = 0;
    while i < args.len()
        invariant
            i <= args@.len(),
            out@.len() == i,
            forall|k: int| 0 <= k < i ==> Ok::<Seq<char>, LaunchError>(#[trigger] out@[k]@) == argument_spec(args@[k]@, data@, *ctx),
        decreases args@.len() - i,
    {
        match resolve_argument(&args[i], data, ctx) {
            Ok(a) => {
                out.push(a);
            },
            Err(e) => {
                proof {
                    assert(argument_spec(args@[i as int]@, data@, *ctx) is Err);
                    lemma_argument_error(args@[i as int]@, data@, *ctx);
                }
                return Err(e);
            },
        }
        i += 1;
    }
    proof {
        assert forall|k: int| 0 <= k < args@.len() implies (#[trigger] argument_spec(args@[k]@, data@, *ctx)) is Ok by {
            assert(Ok::<Seq<char>, LaunchError>(out@[k]@) == argument_spec(args@[k]@, data@, *ctx));
        }
    }
    Ok(out)
}

proof fn lemma_argument_error(arg: Seq<char>, data: Seq<DataEntry>, ctx: ProcessorContext)
    ensures
        argument_spec(arg, data, ctx) matches Err(e) ==> e == LaunchError::MalformedManifest,
{
}

/// Plans the client-side steps of an install profile, in file order. Fails
/// with malformed metadata when a coordinate of a client step names no path
/// or one of its arguments does not resolve.
pub fn plan_processors(
    processors: &Vec<Processor>,
    data: &Vec<DataEntry>,
    ctx: &ProcessorContext,
) -> (r: Result<Vec<ProcessorInvocation>, LaunchError>)
    ensures
        match r {
            Ok(v) => v@.len() == client_steps(processors@).len() && forall|k: int|
                0 <= k < v@.len() ==> invocation_of(
                    #[trigger] v@[k],
                    client_steps(processors@)[k],
                    data@,
                    *ctx,
                ),
            Err(e) => e == LaunchError::MalformedManifest,
        },
        r is Ok <==> forall|k: int|
            0 <= k < client_steps(processors@).len() ==> step_ok(
                #[trigger] client_steps(processors@)[k],
                data@,
                *ctx,
            ),
{
    let mut out: Vec<ProcessorInvocation> = Vec::new();
    let mut i: usize = 0;
    while i < processors.len()
        invariant
            i <= processors@.len(),
            out@.len() == client_steps(processors@.take(i as int)).len(),
            forall|k: int|
                0 <= k < out@.len() ==> invocation_of(
                    #[trigger] out@[k],
                    client_steps(processors@.take(i as int))[k],
                    data@,
                    *ctx,
                ),
            forall|k: int|
                0 <= k < out@.len() ==> step_ok(
                    #[trigger] client_steps(processors@.take(i as int))[k],
                    data@,
                    *ctx,
                ),
        decreases processors@.len() - i,
    {
        let p = &processors[i];
        proof {
            assert(processors@.take(i as int + 1) =~= processors@.take(i as int).push(*p));
            processors@.take(i as int).lemma_filter_push(*p, |q: Processor| runs_on_client_spec(q.sides));
        }
        if runs_on_client(&p.sides) {
            let stepped = step_classpath(p, ctx);
            let resolved = step_args(&p.args, data, ctx);
            match (stepped, resolved) {
                (Ok((cp, jar)), Ok(args)) => {
                    out.push(ProcessorInvocation { classpath: cp, main_jar: jar, args });
                },
                _ => {
                    proof {
                        lemma_first_failure(processors@, i as int, data@, *ctx);
                    }
                    return Err(LaunchError::MalformedManifest);
                },
            }
        }
        i += 1;
    }
    proof {
        assert(processors@.take(processors@.len() as int) =~= processors@);
    }
    Ok(out)
}

proof fn lemma_first_failure(ps: Seq<Processor>, i: int, data: Seq<DataEntry>, ctx: ProcessorContext)
    requires
        0 <= i < ps.len(),
        runs_on_client_spec(ps[i].sides),
        !step_ok(ps[i], data, ctx),
    ensures
        !(forall|k: int|
            0 <= k < client_steps(ps).len() ==> step_ok(#[trigger] client_steps(ps)[k], data, ctx)),
{
    let pred = |q: Processor| runs_on_client_spec(q.sides);
    assert(pred(ps[i]));
    ps.lemma_filter_contains_rev(pred, ps[i]);
    assert(ps.contains(ps[i]));
    let c = client_steps(ps);
    assert(c.contains(ps[i]));
    let k = choose|k: int| 0 <= k < c.len() && c[k] == ps[i];
    assert(!step_ok(c[k], data, ctx));
}

/// The install profile of a legacy-installer version.
#[derive(Clone, Debug)]
pub struct InstallProfile {
    pub libraries: Vec<LibraryEntry>,
    pub processors: Vec<Processor>,
    pub data: Vec<DataEntry>,
}

/// The instance uses the legacy-installer family and has its install profile.
pub open spec fn runs_installer(loader: Option<Loader>, profile: Option<InstallProfile>) -> bool {
    match loader {
        Some(l) => l.family == LoaderFamily::Forge && profile is Some,
        None => false,
    }
}

/// Plans the installer steps of an instance: only the legacy-installer
/// family with an install profile has any, planned as [`plan_processors`] does.
pub fn installer_steps(
    loader: &Option<Loader>,
    profile: &Option<InstallProfile>,
    ctx: &ProcessorContext,
) -> (r: Result<Vec<ProcessorInvocation>, LaunchError>)
    ensures
        match (loader, profile) {
            (Some(l), Some(p)) => l.family == LoaderFamily::Forge ==> match r {
                Ok(v) => v@.len() == client_steps(p.processors@).len() && forall|k: int|
                    0 <= k < v@.len() ==> invocation_of(#[trigger] v@[k], client_steps(p.processors@)[k], p.data@, *ctx),
                Err(e) => e == LaunchError::MalformedManifest,
            },
            _ => true,
        },
        !runs_installer(*loader, *profile) ==> (r matches Ok(v) && v@.len() == 0),
{
    match (loader, profile) {
        (Some(l), Some(p)) => {
            if l.family == LoaderFamily::Forge {
                plan_processors(&p.processors, &p.data, ctx)
            } else {
                Ok(Vec::new())
            }
        },
        _ => Ok(Vec::new()),
    }
}

/// An install profile of the legacy-installer family with a step that
/// runs on the client plans a non-empty list of steps, in file order.
pub proof fn lemma_client_steps_nonempty(ps: Seq<Processor>, i: int)
    requires
        0 <= i < ps.len(),
        runs_on_client_spec(ps[i].sides),
    ensures
        client_steps(ps).len() > 0,
{
    let pred = |q: Processor| runs_on_client_spec(q.sides);
    ps.lemma_filter_contains_rev(pred, ps[i]);
    assert(ps.contains(ps[i]));
    assert(client_steps(ps).contains(ps[i]));
}

} // verus!
