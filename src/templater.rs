//! Builds the game's JVM and game argument lists from a version descriptor,
//! instance settings and the active account, by placeholder substitution.

use vstd::prelude::*;
use crate::rules::{Rule, Platform, rules_result, evaluate_rules};
use crate::text::{chars_of, string_of, replaced, replace_all, swap_char, count_char, push_chars, matches_at, occurs_at};
use crate::coordinate::{split_spec, split_chars, views};

verus! {

/// One entry of a structured argument list.
#[derive(Clone, Debug)]
pub enum ArgumentEntry {
    /// Always present.
    Literal(String),
    /// Present only when its rules include it (default: exclude); the values
    /// are spliced in place, in order.
    Gated { rules: Vec<Rule>, values: Vec<String> },
}

/// The argument templates of a version descriptor.
#[derive(Clone, Debug)]
pub enum ArgumentTemplates {
    /// Structured `game` and `jvm` lists.
    Modern { game: Vec<ArgumentEntry>, jvm: Vec<ArgumentEntry> },
    /// One flat string of game arguments, split on whitespace.
    Legacy(String),
}

/// Views of a vector of strings.
pub open spec fn string_views(v: Seq<String>) -> Seq<Seq<char>> {
    v.map_values(|s: String| s@)
}

/// What one structured entry contributes, given whether gated entries apply.
pub open spec fn entry_values(e: ArgumentEntry, platform: Platform, keep_gated: bool) -> Seq<Seq<char>> {
    match e {
        ArgumentEntry::Literal(s) => seq![s@],
        ArgumentEntry::Gated { rules, values } => if keep_gated && rules_result(
            rules@,
            platform.os@,
            platform.arch@,
            false,
        ) {
            string_views(values@)
        } else {
            Seq::<Seq<char>>::empty()
        },
    }
}

/// The expansion of a structured list: each entry's values in order.
pub open spec fn expand_spec(entries: Seq<ArgumentEntry>, platform: Platform, keep_gated: bool) -> Seq<Seq<char>>
    decreases entries.len(),
{
    if entries.len() == 0 {
        Seq::<Seq<char>>::empty()
    } else {
        expand_spec(entries.drop_last(), platform, keep_gated) + entry_values(
            entries.last(),
            platform,
            keep_gated,
        )
    }
}

fn push_strings(dst: &mut Vec<String>, src: &Vec<String>)
    ensures
        string_views(final(dst)@) == string_views(old(dst)@) + string_views(src@),
{
    let mut i: usize = 0;
    while i < src.len()
        invariant
            i <= src@.len(),
            string_views(dst@) == string_views(old(dst)@) + string_views(src@.take(i as int)),
        decreases src@.len() - i,
    {
        let ghost before = dst@;
        dst.push(src[i].clone());
        proof {
            assert(string_views(dst@) =~= string_views(before).push(src@[i as int]@));
            assert(string_views(src@.take(i as int + 1)) =~= string_views(src@.take(i as int)).push(
                src@[i as int]@,
            ));
        }
        i += 1;
    }
    proof {
        assert(src@.take(src@.len() as int) =~= src@);
    }
}

/// Expands a structured list: literals always, gated entries (only when
/// `keep_gated`) when their rules include them under the exclude default.
pub fn expand_arguments(entries: &Vec<ArgumentEntry>, platform: &Platform, keep_gated: bool) -> (r: Vec<String>)
    ensures
        string_views(r@) == expand_spec(entries@, *platform, keep_gated),
{
    let mut out: Vec<String> = Vec::new();
    let mut i: usize = 0;
    while i < entries.len()
        invariant
            i <= entries@.len(),
            string_views(out@) == expand_spec(entries@.take(i as int), *platform, keep_gated),
        decreases entries@.len() - i,
    {
        let ghost before = out@;
        proof {
            assert(entries@.take(i as int + 1).drop_last() =~= entries@.take(i as int));
            assert(entries@.take(i as int + 1).last() == entries@[i as int]);
        }
        match &entries[i] {
            ArgumentEntry::Literal(s) => {
                out.push(s.clone());
                proof {
                    assert(string_views(out@) =~= string_views(before) + seq![s@]);
                }
            },
            ArgumentEntry::Gated { rules, values } => {
                if keep_gated && evaluate_rules(rules, platform, false) {
                    push_strings(&mut out, values);
                } else {
                    proof {
                        assert(string_views(out@) =~= string_views(before) + Seq::<Seq<char>>::empty());
                    }
                }
            },
        }
        i += 1;
    }
    proof {
        assert(entries@.take(entries@.len() as int) =~= entries@);
    }
    out
}

/// A character that separates legacy arguments.
pub open spec fn is_blank(c: char) -> bool {
    c == ' ' || c == '\t' || c == '\n' || c == '\r'
}

/// The tokens of `s` after a partial token `cur`: maximal runs of non-blank characters.
pub open spec fn tokens_from(s: Seq<char>, cur: Seq<char>) -> Seq<Seq<char>>
    decreases s.len(),
{
    if s.len() == 0 {
        if cur.len() > 0 {
            seq![cur]
        } else {
            Seq::<Seq<char>>::empty()
        }
    } else if is_blank(s[0]) {
        (if cur.len() > 0 {
            seq![cur]
        } else {
            Seq::<Seq<char>>::empty()
        }) + tokens_from(s.skip(1), Seq::<char>::empty())
    } else {
        tokens_from(s.skip(1), cur.push(s[0]))
    }
}

/// The whitespace-separated tokens of `s`.
pub open spec fn tokens_spec(s: Seq<char>) -> Seq<Seq<char>> {
    tokens_from(s, Seq::<char>::empty())
}

/// Splits a legacy argument string into its whitespace-separated tokens.
pub fn split_arguments(s: &String) -> (r: Vec<String>)
    ensures
        string_views(r@) == tokens_spec(s@),
{
    let cs = chars_of(s.as_str());
    let mut out: Vec<String> = Vec::new();
    let mut cur: Vec<char> = Vec::new();
    let mut i: usize = 0;
    proof {
        assert(cs@.skip(0) =~= cs@);
        assert(string_views(out@) + tokens_from(cs@.skip(0), cur@) =~= tokens_spec(s@));
    }
    while i < cs.len()
        invariant
            i <= cs@.len(),
            cs@ == s@,
            string_views(out@) + tokens_from(cs@.skip(i as int), cur@) == tokens_spec(s@),
        decreases cs@.len() - i,
    {
        let c = cs[i];
        let ghost before = out@;
        proof {
            assert(cs@.skip(i as int).skip(1) =~= cs@.skip(i as int + 1));
        }
        if c == ' ' || c == '\t' || c == '\n' || c == '\r' {
            let ghost old_cur = cur@;
            let ghost pre = if old_cur.len() > 0 { seq![old_cur] } else { Seq::<Seq<char>>::empty() };
            if cur.len() > 0 {
                out.push(string_of(&cur));
            }
            proof {
                assert(string_views(out@) =~= string_views(before) + pre);
            }
            cur = Vec::new();
            proof {
                assert(string_views(out@) + tokens_from(cs@.skip(i as int + 1), cur@) =~= string_views(
                    before,
                ) + (pre + tokens_from(cs@.skip(i as int + 1), Seq::<char>::empty())));
            }
        } else {
            cur.push(c);
        }
        i += 1;
    }
    proof {
        assert(cs@.skip(i as int) =~= Seq::<char>::empty());
    }
    let ghost before = out@;
    if cur.len() > 0 {
        out.push(string_of(&cur));
        proof {
            assert(string_views(out@) =~= string_views(before) + seq![cur@]);
        }
    } else {
        proof {
            assert(string_views(before) + Seq::<Seq<char>>::empty() =~= string_views(before));
        }
    }
    out
}


fn push_literal(v: &mut Vec<String>, s: &str)
    ensures
        string_views(final(v)@) == string_views(old(v)@).push(s@),
{
    let ghost before = v@;
    v.push(String::from_str(s));
    proof {
        assert(string_views(v@) =~= string_views(before).push(s@));
    }
}

/// Memory, collector and compatibility flags every launch carries.
pub open spec fn common_flags_spec() -> Seq<Seq<char>> {
    seq![
        "-Dfml.ignoreInvalidMinecraftCertificates=true"@,
        "-Dfml.ignorePatchDiscrepancies=true"@,
        "-Dminecraft.applet.TargetDirectory=${game_directory}"@,
        "-Xmx2G"@,
        "-Xms2G"@,
        "-XX:+UnlockExperimentalVMOptions"@,
        "-XX:+UseG1GC"@,
        "-XX:G1ReservePercent=20"@,
    ]
}

/// JIT and collector tuning added when the runtime's major version is 17.
pub open spec fn tuned_flags_spec() -> Seq<Seq<char>> {
    seq![
        "-XX:+UnlockDiagnosticVMOptions"@,
        "-XX:+AlwaysActAsServerClassMachine"@,
        "-XX:+AlwaysPreTouch"@,
        "-XX:+DisableExplicitGC"@,
        "-XX:+UseNUMA"@,
        "-XX:NmethodSweepActivity=1"@,
        "-XX:ReservedCodeCacheSize=400M"@,
        "-XX:NonNMethodCodeHeapSize=12M"@,
        "-XX:ProfiledCodeHeapSize=194M"@,
        "-XX:NonProfiledCodeHeapSize=194M"@,
        "-XX:-DontCompileHugeMethods"@,
        "-XX:MaxNodeLimit=240000"@,
        "-XX:NodeLimitFudgeFactor=8000"@,
        "-XX:+UseVectorCmov"@,
        "-XX:+PerfDisableSharedMem"@,
        "-XX:+UseFastUnorderedTimeStamps"@,
        "-XX:+UseCriticalJavaThreadPriority"@,
        "-XX:ThreadPriorityPolicy=1"@,
        "-XX:AllocatePrefetchStyle=3"@,
        "-XX:MaxGCPauseMillis=37"@,
        "-XX:+PerfDisableSharedMem"@,
        "-XX:G1HeapRegionSize=16M"@,
        "-XX:G1NewSizePercent=23"@,
        "-XX:SurvivorRatio=32"@,
        "-XX:G1MixedGCCountTarget=3"@,
        "-XX:G1HeapWastePercent=20"@,
        "-XX:InitiatingHeapOccupancyPercent=10"@,
        "-XX:G1RSetUpdatingPauseTimePercent=0"@,
        "-XX:MaxTenuringThreshold=1"@,
        "-XX:G1SATBBufferEnqueueingThresholdPercent=30"@,
        "-XX:G1ConcMarkStepDurationMillis=5.0"@,
        "-XX:G1ConcRSHotCardLimit=16"@,
        "-XX:G1ConcRefinementServiceIntervalMillis=150"@,
        "-XX:GCTimeRatio=99"@,
    ]
}

/// Collector tuning added on older runtimes.
pub open spec fn plain_flags_spec() -> Seq<Seq<char>> {
    seq![
        "-XX:G1NewSizePercent=20"@,
        "-XX:MaxGCPauseMillis=50"@,
        "-XX:G1HeapRegionSize=32M"@,
    ]
}

/// The flags every launch carries.
pub fn common_flags() -> (r: Vec<String>)
    ensures
        string_views(r@) == common_flags_spec(),
{
    let mut v: Vec<String> = Vec::new();
    push_literal(&mut v, "-Dfml.ignoreInvalidMinecraftCertificates=true");
    push_literal(&mut v, "-Dfml.ignorePatchDiscrepancies=true");
    push_literal(&mut v, "-Dminecraft.applet.TargetDirectory=${game_directory}");
    push_literal(&mut v, "-Xmx2G");
    push_literal(&mut v, "-Xms2G");
    push_literal(&mut v, "-XX:+UnlockExperimentalVMOptions");
    push_literal(&mut v, "-XX:+UseG1GC");
    push_literal(&mut v, "-XX:G1ReservePercent=20");
    proof {
        assert(string_views(v@) =~= common_flags_spec());
    }
    v
}

/// The tuning flags for a major-17 runtime.
pub fn tuned_flags() -> (r: Vec<String>)
    ensures
        string_views(r@) == tuned_flags_spec(),
{
    let mut v: Vec<String> = Vec::new();
    push_literal(&mut v, "-XX:+UnlockDiagnosticVMOptions");
    push_literal(&mut v, "-XX:+AlwaysActAsServerClassMachine");
    push_literal(&mut v, "-XX:+AlwaysPreTouch");
    push_literal(&mut v, "-XX:+DisableExplicitGC");
    push_literal(&mut v, "-XX:+UseNUMA");
    push_literal(&mut v, "-XX:NmethodSweepActivity=1");
    push_literal(&mut v, "-XX:ReservedCodeCacheSize=400M");
    push_literal(&mut v, "-XX:NonNMethodCodeHeapSize=12M");
    push_literal(&mut v, "-XX:ProfiledCodeHeapSize=194M");
    push_literal(&mut v, "-XX:NonProfiledCodeHeapSize=194M");
    push_literal(&mut v, "-XX:-DontCompileHugeMethods");
    push_literal(&mut v, "-XX:MaxNodeLimit=240000");
    push_literal(&mut v, "-XX:NodeLimitFudgeFactor=8000");
    push_literal(&mut v, "-XX:+UseVectorCmov");
    push_literal(&mut v, "-XX:+PerfDisableSharedMem");
    push_literal(&mut v, "-XX:+UseFastUnorderedTimeStamps");
    push_literal(&mut v, "-XX:+UseCriticalJavaThreadPriority");
    push_literal(&mut v, "-XX:ThreadPriorityPolicy=1");
    push_literal(&mut v, "-XX:AllocatePrefetchStyle=3");
    push_literal(&mut v, "-XX:MaxGCPauseMillis=37");
    push_literal(&mut v, "-XX:+PerfDisableSharedMem");
    push_literal(&mut v, "-XX:G1HeapRegionSize=16M");
    push_literal(&mut v, "-XX:G1NewSizePercent=23");
    push_literal(&mut v, "-XX:SurvivorRatio=32");
    push_literal(&mut v, "-XX:G1MixedGCCountTarget=3");
    push_literal(&mut v, "-XX:G1HeapWastePercent=20");
    push_literal(&mut v, "-XX:InitiatingHeapOccupancyPercent=10");
    push_literal(&mut v, "-XX:G1RSetUpdatingPauseTimePercent=0");
    push_literal(&mut v, "-XX:MaxTenuringThreshold=1");
    push_literal(&mut v, "-XX:G1SATBBufferEnqueueingThresholdPercent=30");
    push_literal(&mut v, "-XX:G1ConcMarkStepDurationMillis=5.0");
    push_literal(&mut v, "-XX:G1ConcRSHotCardLimit=16");
    push_literal(&mut v, "-XX:G1ConcRefinementServiceIntervalMillis=150");
    push_literal(&mut v, "-XX:GCTimeRatio=99");
    proof {
        assert(string_views(v@) =~= tuned_flags_spec());
    }
    v
}

/// The tuning flags for older runtimes.
pub fn plain_flags() -> (r: Vec<String>)
    ensures
        string_views(r@) == plain_flags_spec(),
{
    let mut v: Vec<String> = Vec::new();
    push_literal(&mut v, "-XX:G1NewSizePercent=20");
    push_literal(&mut v, "-XX:MaxGCPauseMillis=50");
    push_literal(&mut v, "-XX:G1HeapRegionSize=32M");
    proof {
        assert(string_views(v@) =~= plain_flags_spec());
    }
    v
}

/// The runtime major version the launch selects from the descriptor's hint:
/// 16 and 17 run on 17, everything else (and no hint) on 8.
pub open spec fn java_major_spec(hint: Option<u64>) -> u64 {
    match hint {
        Some(v) => if v == 16 || v == 17 {
            17
        } else {
            8
        },
        None => 8,
    }
}

/// Picks the runtime major version from the descriptor's hint.
pub fn resolve_java_major(hint: Option<u64>) -> (r: u64)
    ensures
        r == java_major_spec(hint),
{
    match hint {
        Some(v) => if v == 16 || v == 17 {
            17
        } else {
            8
        },
        None => 8,
    }
}

/// The flags appended after the descriptor's JVM arguments.
pub open spec fn baseline_flags_spec(java_major: u64) -> Seq<Seq<char>> {
    common_flags_spec() + if java_major == 17 {
        tuned_flags_spec()
    } else {
        plain_flags_spec()
    }
}

/// The flags appended after the descriptor's JVM arguments for a runtime.
pub fn baseline_flags(java_major: u64) -> (r: Vec<String>)
    ensures
        string_views(r@) == baseline_flags_spec(java_major),
{
    let mut v = common_flags();
    let extra = if java_major == 17 {
        tuned_flags()
    } else {
        plain_flags()
    };
    push_strings(&mut v, &extra);
    v
}

/// `s` after each `(name, value)` of `pairs` has been substituted, in order.
pub open spec fn substitute_spec(s: Seq<char>, pairs: Seq<(Seq<char>, Seq<char>)>) -> Seq<char>
    decreases pairs.len(),
{
    if pairs.len() == 0 {
        s
    } else {
        replaced(substitute_spec(s, pairs.drop_last()), pairs.last().0, pairs.last().1)
    }
}

/// On backslash-path platforms, a value with more than one `/` has every `/`
/// turned into a backslash; other values are left alone.
pub open spec fn platform_slashes(s: Seq<char>, windows: bool) -> Seq<char> {
    if windows && count_char(s, '/') > 1 {
        swap_char(s, '/', '\\')
    } else {
        s
    }
}

/// A named placeholder and the text that replaces it.
#[derive(Clone, Debug)]
pub struct Placeholder {
    pub name: String,
    pub value: String,
}

/// The `(name, value)` pairs of a placeholder list.
pub open spec fn pairs_of(ph: Seq<Placeholder>) -> Seq<(Seq<char>, Seq<char>)> {
    ph.map_values(|p: Placeholder| (p.name@, p.value@))
}

/// Substitutes every placeholder of `ph` into `s`, in list order.
pub fn substitute(s: &String, ph: &Vec<Placeholder>) -> (r: String)
    ensures
        r@ == substitute_spec(s@, pairs_of(ph@)),
{
    let mut cur = chars_of(s.as_str());
    let mut i: usize = 0;
    while i < ph.len()
        invariant
            i <= ph@.len(),
            cur@ == substitute_spec(s@, pairs_of(ph@.take(i as int))),
        decreases ph@.len() - i,
    {
        let name = chars_of(ph[i].name.as_str());
        let value = chars_of(ph[i].value.as_str());
        cur = replace_all(&cur, &name, &value);
        proof {
            assert(pairs_of(ph@.take(i as int + 1)).drop_last() =~= pairs_of(ph@.take(i as int)));
        }
        i += 1;
    }
    proof {
        assert(ph@.take(ph@.len() as int) =~= ph@);
    }
    string_of(&cur)
}

fn slash_count(s: &Vec<char>) -> (r: usize)
    ensures
        r == count_char(s@, '/'),
{
    let mut n: usize = 0;
    let mut i: usize = 0;
    while i < s.len()
        invariant
            i <= s@.len(),
            n == count_char(s@.take(i as int), '/'),
            n <= i,
        decreases s@.len() - i,
    {
        proof {
            assert(s@.take(i as int + 1).drop_last() =~= s@.take(i as int));
        }
        if s[i] == '/' {
            n += 1;
        }
        i += 1;
    }
    proof {
        assert(s@.take(s@.len() as int) =~= s@);
    }
    n
}

/// Applies the backslash-path heuristic to one argument.
pub fn adjust_slashes(s: &String, windows: bool) -> (r: String)
    ensures
        r@ == platform_slashes(s@, windows),
{
    let cs = chars_of(s.as_str());
    if windows && slash_count(&cs) > 1 {
        string_of(&crate::coordinate::swap_chars(&cs, '/', '\\'))
    } else {
        s.clone()
    }
}

/// Each argument after substitution and the slash heuristic.
pub open spec fn finish_spec(args: Seq<Seq<char>>, pairs: Seq<(Seq<char>, Seq<char>)>, windows: bool) -> Seq<Seq<char>> {
    args.map_values(|a: Seq<char>| platform_slashes(substitute_spec(a, pairs), windows))
}

/// Substitutes the placeholders into every argument, then applies the slash heuristic.
pub fn finish_arguments(args: &Vec<String>, ph: &Vec<Placeholder>, windows: bool) -> (r: Vec<String>)
    ensures
        string_views(r@) == finish_spec(string_views(args@), pairs_of(ph@), windows),
{
    let mut out: Vec<String> = Vec::new();
    let mut i: usize = 0;
    while i < args.len()
        invariant
            i <= args@.len(),
            string_views(out@) == finish_spec(string_views(args@.take(i as int)), pairs_of(ph@), windows),
        decreases args@.len() - i,
    {
        let sub = substitute(&args[i], ph);
        let fin = adjust_slashes(&sub, windows);
        let ghost before = out@;
        out.push(fin);
        proof {
            assert(string_views(out@) =~= string_views(before).push(fin@));
            assert(finish_spec(string_views(args@.take(i as int + 1)), pairs_of(ph@), windows) =~= finish_spec(
                string_views(args@.take(i as int)),
                pairs_of(ph@),
                windows,
            ).push(platform_slashes(substitute_spec(args@[i as int]@, pairs_of(ph@)), windows)));
        }
        i += 1;
    }
    proof {
        assert(args@.take(args@.len() as int) =~= args@);
    }
    out
}

/// The values the placeholders of a launch stand for.
#[derive(Clone, Debug)]
pub struct LaunchContext {
    pub player_name: String,
    pub uuid: String,
    pub access_token: String,
    pub game_directory: String,
    /// Asset directory as game arguments see it (see [`assets_location`]).
    pub game_assets: String,
    /// The shared asset store, as JVM arguments see it.
    pub assets_root: String,
    pub version_name: String,
    pub version_type: String,
    pub asset_index: String,
    pub natives_directory: String,
    pub libraries_path: String,
    pub classpath: String,
    pub classpath_separator: String,
    pub width: String,
    pub height: String,
}

fn push_placeholder(v: &mut Vec<Placeholder>, name: &str, value: String)
    ensures
        pairs_of(final(v)@) == pairs_of(old(v)@).push((name@, value@)),
{
    let ghost before = v@;
    v.push(Placeholder { name: String::from_str(name), value });
    proof {
        assert(pairs_of(v@) =~= pairs_of(before).push((name@, value@)));
    }
}

/// Placeholders of game arguments, in the order they are substituted.
pub open spec fn game_pairs_spec(c: LaunchContext) -> Seq<(Seq<char>, Seq<char>)> {
    seq![
        ("${auth_player_name}"@, c.player_name@),
        ("${auth_session}"@, c.access_token@),
        ("${game_directory}"@, c.game_directory@),
        ("${game_assets}"@, c.game_assets@),
        ("${version_name}"@, c.version_name@),
        ("${assets_root}"@, c.game_assets@),
        ("${assets_index_name}"@, c.asset_index@),
        ("${auth_uuid}"@, c.uuid@),
        ("${auth_access_token}"@, c.access_token@),
        ("${user_properties}"@, "{}"@),
        ("${user_type}"@, "msa"@),
        ("${profile_name}"@, "Minecraft"@),
        ("${resolution_width}"@, c.width@),
        ("${resolution_height}"@, c.height@),
        ("${version_type}"@, c.version_type@),
    ]
}

/// Placeholders of JVM arguments, in the order they are substituted.
pub open spec fn jvm_pairs_spec(c: LaunchContext) -> Seq<(Seq<char>, Seq<char>)> {
    seq![
        ("${natives_directory}"@, c.natives_directory@),
        ("${auth_uuid}"@, c.uuid@),
        ("${profile_name}"@, "Minecraft"@),
        ("${assets_root}"@, c.assets_root@),
        ("${version_name}"@, c.version_name@),
        ("${assets_index_name}"@, c.asset_index@),
        ("${classpath}"@, c.classpath@),
        ("${libraries_path}"@, c.libraries_path@),
        ("${library_directory}"@, c.libraries_path@),
        ("${classpath_separator}"@, c.classpath_separator@),
        ("${game_directory}"@, c.game_directory@),
    ]
}

/// The placeholder table for game arguments.
pub fn game_placeholders(c: &LaunchContext) -> (r: Vec<Placeholder>)
    ensures
        pairs_of(r@) == game_pairs_spec(*c),
{
    let mut v: Vec<Placeholder> = Vec::new();
    push_placeholder(&mut v, "${auth_player_name}", c.player_name.clone());
    push_placeholder(&mut v, "${auth_session}", c.access_token.clone());
    push_placeholder(&mut v, "${game_directory}", c.game_directory.clone());
    push_placeholder(&mut v, "${game_assets}", c.game_assets.clone());
    push_placeholder(&mut v, "${version_name}", c.version_name.clone());
    push_placeholder(&mut v, "${assets_root}", c.game_assets.clone());
    push_placeholder(&mut v, "${assets_index_name}", c.asset_index.clone());
    push_placeholder(&mut v, "${auth_uuid}", c.uuid.clone());
    push_placeholder(&mut v, "${auth_access_token}", c.access_token.clone());
    push_placeholder(&mut v, "${user_properties}", String::from_str("{}"));
    push_placeholder(&mut v, "${user_type}", String::from_str("msa"));
    push_placeholder(&mut v, "${profile_name}", String::from_str("Minecraft"));
    push_placeholder(&mut v, "${resolution_width}", c.width.clone());
    push_placeholder(&mut v, "${resolution_height}", c.height.clone());
    push_placeholder(&mut v, "${version_type}", c.version_type.clone());
    proof {
        assert(pairs_of(v@) =~= game_pairs_spec(*c));
    }
    v
}

/// The placeholder table for JVM arguments.
pub fn jvm_placeholders(c: &LaunchContext) -> (r: Vec<Placeholder>)
    ensures
        pairs_of(r@) == jvm_pairs_spec(*c),
{
    let mut v: Vec<Placeholder> = Vec::new();
    push_placeholder(&mut v, "${natives_directory}", c.natives_directory.clone());
    push_placeholder(&mut v, "${auth_uuid}", c.uuid.clone());
    push_placeholder(&mut v, "${profile_name}", String::from_str("Minecraft"));
    push_placeholder(&mut v, "${assets_root}", c.assets_root.clone());
    push_placeholder(&mut v, "${version_name}", c.version_name.clone());
    push_placeholder(&mut v, "${assets_index_name}", c.asset_index.clone());
    push_placeholder(&mut v, "${classpath}", c.classpath.clone());
    push_placeholder(&mut v, "${libraries_path}", c.libraries_path.clone());
    push_placeholder(&mut v, "${library_directory}", c.libraries_path.clone());
    push_placeholder(&mut v, "${classpath_separator}", c.classpath_separator.clone());
    push_placeholder(&mut v, "${game_directory}", c.game_directory.clone());
    proof {
        assert(pairs_of(v@) =~= jvm_pairs_spec(*c));
    }
    v
}

/// Where game arguments find assets: pre-1.6 indexes read from the
/// instance's own resources, the legacy index from the virtual legacy
/// tree, everything else from the shared store.
#[derive(Clone, Copy, Debug, PartialEq, Eq, Structural)]
pub enum AssetsLocation {
    InstanceResources,
    VirtualLegacy,
    Shared,
}

/// The asset location for an asset-index id.
pub open spec fn assets_location_spec(asset_index: Seq<char>) -> AssetsLocation {
    if asset_index == "pre-1.6"@ {
        AssetsLocation::InstanceResources
    } else if asset_index == "legacy"@ {
        AssetsLocation::VirtualLegacy
    } else {
        AssetsLocation::Shared
    }
}

/// Chooses where game arguments find assets for an asset-index id.
pub fn assets_location(asset_index: &String) -> (r: AssetsLocation)
    ensures
        r == assets_location_spec(asset_index@),
{
    if *asset_index == String::from_str("pre-1.6") {
        AssetsLocation::InstanceResources
    } else if *asset_index == String::from_str("legacy") {
        AssetsLocation::VirtualLegacy
    } else {
        AssetsLocation::Shared
    }
}

/// File name of the client jar: the loader's own jar when a loader is
/// selected and its jar exists, else the version's jar.
pub open spec fn client_jar_spec(version: Seq<char>, loader: Seq<char>, loader_jar_exists: bool) -> Seq<char> {
    if loader.len() == 0 || !loader_jar_exists {
        version + ".jar"@
    } else {
        loader + ".jar"@
    }
}

/// Chooses the client jar's file name.
pub fn client_jar_name(version: &String, loader: &String, loader_jar_exists: bool) -> (r: String)
    ensures
        r@ == client_jar_spec(version@, loader@, loader_jar_exists),
{
    let mut r = if loader.unicode_len() == 0 || !loader_jar_exists {
        version.clone()
    } else {
        loader.clone()
    };
    r.append(".jar");
    r
}

/// `s` with the libraries root in place of its placeholder.
pub open spec fn root_substituted(s: Seq<char>, libraries_path: Seq<char>) -> Seq<char> {
    replaced(s, "${libraries_path}"@, libraries_path)
}

/// The classpath entry `e` is named in `ignore` (the names with the
/// libraries root in place of its placeholder).
pub open spec fn ignored(e: Seq<char>, ignore: Seq<Seq<char>>, libraries_path: Seq<char>) -> bool {
    exists|k: int| 0 <= k < ignore.len() && root_substituted(ignore[k], libraries_path) == e
}

/// The entries that stay: non-empty and not named in `ignore`, in order.
pub open spec fn kept_entries(parts: Seq<Seq<char>>, ignore: Seq<Seq<char>>, libraries_path: Seq<char>) -> Seq<Seq<char>>
    decreases parts.len(),
{
    if parts.len() == 0 {
        Seq::empty()
    } else {
        kept_entries(parts.drop_last(), ignore, libraries_path) + if parts.last().len() > 0 && !ignored(
            parts.last(),
            ignore,
            libraries_path,
        ) {
            seq![parts.last()]
        } else {
            Seq::empty()
        }
    }
}

/// Entries joined by `sep`.
pub open spec fn join_spec(parts: Seq<Seq<char>>, sep: char) -> Seq<char>
    decreases parts.len(),
{
    if parts.len() == 0 {
        Seq::empty()
    } else if parts.len() == 1 {
        parts[0]
    } else {
        join_spec(parts.drop_last(), sep) + seq![sep] + parts.last()
    }
}

/// The final classpath: the client jar, the version's library fragment and
/// the loader's (if any) joined by `sep`, with the libraries root
/// substituted; then, cut at `sep`, the non-empty entries not named in
/// `ignore`, in order, joined by `sep`.
pub open spec fn classpath_spec(
    jar: Seq<char>,
    libraries: Seq<char>,
    loader_libraries: Option<Seq<char>>,
    ignore: Seq<Seq<char>>,
    libraries_path: Seq<char>,
    sep: char,
) -> Seq<char> {
    let base = jar + seq![sep] + libraries;
    let joined = match loader_libraries {
        Some(l) => base + seq![sep] + l,
        None => base,
    };
    join_spec(
        kept_entries(split_spec(root_substituted(joined, libraries_path), sep), ignore, libraries_path),
        sep,
    )
}

fn same_chars(a: &Vec<char>, b: &Vec<char>) -> (r: bool)
    ensures
        r == (a@ == b@),
{
    if a.len() != b.len() {
        return false;
    }
    let r = matches_at(a, 0, b);
    proof {
        if r {
            assert(a@ =~= a@.subrange(0, b@.len() as int));
        } else {
            assert(a@.subrange(0, b@.len() as int) =~= a@);
        }
    }
    r
}

fn named(names: &Vec<Vec<char>>, e: &Vec<char>) -> (r: bool)
    ensures
        r == exists|k: int| 0 <= k < names@.len() && names@[k]@ == e@,
{
    let mut k: usize = 0;
    while k < names.len()
        invariant
            k <= names@.len(),
            forall|j: int| 0 <= j < k ==> names@[j]@ != e@,
        decreases names@.len() - k,
    {
        if same_chars(&names[k], e) {
            return true;
        }
        k += 1;
    }
    false
}

/// Assembles the classpath of a launch.
pub fn build_classpath(
    jar: &String,
    libraries: &String,
    loader_libraries: &Option<String>,
    ignore: &Vec<String>,
    libraries_path: &String,
    sep: char,
) -> (r: String)
    ensures
        r@ == classpath_spec(
            jar@,
            libraries@,
            match loader_libraries {
                Some(l) => Some(l@),
                None => None,
            },
            string_views(ignore@),
            libraries_path@,
            sep,
        ),
{
    let mut joined = chars_of(jar.as_str());
    joined.push(sep);
    push_chars(&mut joined, &chars_of(libraries.as_str()));
    match loader_libraries {
        Some(l) => {
            joined.push(sep);
            push_chars(&mut joined, &chars_of(l.as_str()));
        },
        None => {},
    }
    let key = chars_of("${libraries_path}");
    let root = chars_of(libraries_path.as_str());
    let ghost jspec = {
        let base = jar@ + seq![sep] + libraries@;
        match loader_libraries {
            Some(l) => base + seq![sep] + l@,
            None => base,
        }
    };
    proof {
        assert(joined@ =~= jspec);
    }
    let full = replace_all(&joined, &key, &root);
    let parts = split_chars(&full, sep);
    let ghost pv = views(parts@);
    proof {
        assert(pv == split_spec(root_substituted(jspec, libraries_path@), sep));
    }
    let ghost iv = string_views(ignore@);
    let mut names: Vec<Vec<char>> = Vec::new();
    let mut i: usize = 0;
    while i < ignore.len()
        invariant
            i <= ignore@.len(),
            iv == string_views(ignore@),
            pv == views(parts@),
            pv == split_spec(root_substituted(jspec, libraries_path@), sep),
            key@ == "${libraries_path}"@,
            root@ == libraries_path@,
            names@.len() == i,
            forall|j: int| 0 <= j < i ==> (#[trigger] names@[j])@ == root_substituted(iv[j], libraries_path@),
        decreases ignore@.len() - i,
    {
        names.push(replace_all(&chars_of(ignore[i].as_str()), &key, &root));
        i += 1;
    }
    let mut out: Vec<char> = Vec::new();
    let mut started = false;
    let mut k: usize = 0;
    while k < parts.len()
        invariant
            k <= parts@.len(),
            pv == views(parts@),
            pv == split_spec(root_substituted(jspec, libraries_path@), sep),
            iv == string_views(ignore@),
            names@.len() == iv.len(),
            forall|j: int| 0 <= j < names@.len() ==> (#[trigger] names@[j])@ == root_substituted(iv[j], libraries_path@),
            started == (kept_entries(pv.take(k as int), iv, libraries_path@).len() > 0),
            out@ == join_spec(kept_entries(pv.take(k as int), iv, libraries_path@), sep),
        decreases parts@.len() - k,
    {
        let ghost before = kept_entries(pv.take(k as int), iv, libraries_path@);
        proof {
            assert(pv.take(k as int + 1).drop_last() =~= pv.take(k as int));
            assert(pv.take(k as int + 1).last() == parts@[k as int]@);
        }
        let hit = named(&names, &parts[k]);
        proof {
            if hit {
                let j = choose|j: int| 0 <= j < names@.len() && names@[j]@ == parts@[k as int]@;
                assert(root_substituted(iv[j], libraries_path@) == parts@[k as int]@);
            }
            if ignored(parts@[k as int]@, iv, libraries_path@) {
                let j = choose|j: int| 0 <= j < iv.len() && root_substituted(iv[j], libraries_path@) == parts@[k as int]@;
                assert(names@[j]@ == parts@[k as int]@);
            }
        }
        if parts[k].len() > 0 && !hit {
            let ghost after = before.push(parts@[k as int]@);
            proof {
                assert(after.drop_last() =~= before);
            }
            if started {
                out.push(sep);
            }
            push_chars(&mut out, &parts[k]);
            proof {
                assert(kept_entries(pv.take(k as int + 1), iv, libraries_path@) =~= after);
                if before.len() == 0 {
                    assert(out@ =~= after[0]);
                } else {
                    assert(out@ =~= join_spec(before, sep) + seq![sep] + parts@[k as int]@);
                }
            }
            started = true;
        } else {
            proof {
                assert(kept_entries(pv.take(k as int + 1), iv, libraries_path@) =~= before);
            }
        }
        k += 1;
    }
    proof {
        assert(pv.take(pv.len() as int) =~= pv);
    }
    string_of(&out)
}

/// What a loader adds to the launch beyond libraries.
#[derive(Clone, Debug)]
pub struct LoaderOverlay {
    pub game: Vec<String>,
    pub jvm: Vec<String>,
    pub main_class: Option<String>,
}

/// A logging configuration argument and the path its `${path}` stands for.
#[derive(Clone, Debug)]
pub struct LoggingArgument {
    pub argument: String,
    pub path: String,
}

/// The assembled invocation: JVM arguments, main class, game arguments.
#[derive(Clone, Debug)]
pub struct LaunchPlan {
    pub jvm_arguments: Vec<String>,
    pub main_class: String,
    pub game_arguments: Vec<String>,
}

/// Game arguments before substitution: the descriptor's (structured
/// literals, or the legacy string's tokens) then the resolution switches.
pub open spec fn raw_game_spec(t: ArgumentTemplates, platform: Platform) -> Seq<Seq<char>> {
    let base = match t {
        ArgumentTemplates::Modern { game, jvm } => expand_spec(game@, platform, false),
        ArgumentTemplates::Legacy(s) => tokens_spec(s@),
    };
    base + seq!["--width"@, "${resolution_width}"@, "--height"@, "${resolution_height}"@]
}

/// JVM arguments before substitution: the descriptor's (structured, rules
/// applied; or the legacy classpath and natives switches) then the baseline flags.
pub open spec fn raw_jvm_spec(t: ArgumentTemplates, platform: Platform, java_major: u64) -> Seq<Seq<char>> {
    let base = match t {
        ArgumentTemplates::Modern { game, jvm } => expand_spec(jvm@, platform, true),
        ArgumentTemplates::Legacy(s) => seq![
            "-cp"@,
            "${classpath}"@,
            "-Djava.library.path=${natives_directory}"@,
        ],
    };
    base + baseline_flags_spec(java_major)
}

/// The loader's additions to a list, if a loader is present.
pub open spec fn overlay_spec(loader: Option<LoaderOverlay>, game: bool) -> Seq<Seq<char>> {
    match loader {
        Some(l) => if game {
            string_views(l.game@)
        } else {
            string_views(l.jvm@)
        },
        None => Seq::<Seq<char>>::empty(),
    }
}

/// Game arguments of the launch.
pub open spec fn game_arguments_spec(
    t: ArgumentTemplates,
    platform: Platform,
    loader: Option<LoaderOverlay>,
    ctx: LaunchContext,
    fullscreen: bool,
    windows: bool,
) -> Seq<Seq<char>> {
    finish_spec(raw_game_spec(t, platform) + overlay_spec(loader, true), game_pairs_spec(ctx), windows)
        + if fullscreen {
        seq!["--fullscreen"@, "true"@]
    } else {
        Seq::<Seq<char>>::empty()
    }
}

/// JVM arguments of the launch.
pub open spec fn jvm_arguments_spec(
    t: ArgumentTemplates,
    platform: Platform,
    java_major: u64,
    loader: Option<LoaderOverlay>,
    ctx: LaunchContext,
    windows: bool,
    logging: Option<LoggingArgument>,
) -> Seq<Seq<char>> {
    finish_spec(raw_jvm_spec(t, platform, java_major) + overlay_spec(loader, false), jvm_pairs_spec(ctx), windows)
        + match logging {
        Some(l) => seq![replaced(l.argument@, "${path}"@, l.path@)],
        None => Seq::<Seq<char>>::empty(),
    }
}

/// The main class: the loader's when it names one, else the descriptor's.
pub open spec fn main_class_spec(main_class: Seq<char>, loader: Option<LoaderOverlay>) -> Seq<char> {
    match loader {
        Some(l) => match l.main_class {
            Some(m) => m@,
            None => main_class,
        },
        None => main_class,
    }
}

/// Builds the complete invocation of the game.
pub fn assemble_launch(
    templates: &ArgumentTemplates,
    platform: &Platform,
    java_major: u64,
    main_class: &String,
    loader: &Option<LoaderOverlay>,
    ctx: &LaunchContext,
    fullscreen: bool,
    windows: bool,
    logging: &Option<LoggingArgument>,
) -> (r: LaunchPlan)
    ensures
        string_views(r.game_arguments@) == game_arguments_spec(
            *templates,
            *platform,
            *loader,
            *ctx,
            fullscreen,
            windows,
        ),
        string_views(r.jvm_arguments@) == jvm_arguments_spec(
            *templates,
            *platform,
            java_major,
            *loader,
            *ctx,
            windows,
            *logging,
        ),
        r.main_class@ == main_class_spec(main_class@, *loader),
{
    let (mut game, mut jvm) = match templates {
        ArgumentTemplates::Modern { game, jvm } => (
            expand_arguments(game, platform, false),
            expand_arguments(jvm, platform, true),
        ),
        ArgumentTemplates::Legacy(s) => {
            let mut j: Vec<String> = Vec::new();
            push_literal(&mut j, "-cp");
            push_literal(&mut j, "${classpath}");
            push_literal(&mut j, "-Djava.library.path=${natives_directory}");
            proof {
                assert(string_views(j@) =~= seq![
                    "-cp"@,
                    "${classpath}"@,
                    "-Djava.library.path=${natives_directory}"@,
                ]);
            }
            (split_arguments(s), j)
        },
    };
    let ghost g0 = string_views(game@);
    push_literal(&mut game, "--width");
    push_literal(&mut game, "${resolution_width}");
    push_literal(&mut game, "--height");
    push_literal(&mut game, "${resolution_height}");
    proof {
        assert(string_views(game@) =~= g0 + seq![
            "--width"@,
            "${resolution_width}"@,
            "--height"@,
            "${resolution_height}"@,
        ]);
    }
    let flags = baseline_flags(java_major);
    push_strings(&mut jvm, &flags);
    let mut main = main_class.clone();
    match loader {
        Some(l) => {
            push_strings(&mut game, &l.game);
            push_strings(&mut jvm, &l.jvm);
            match &l.main_class {
                Some(m) => {
                    main = m.clone();
                },
                None => {},
            }
        },
        None => {
            proof {
                assert(string_views(game@) + Seq::<Seq<char>>::empty() =~= string_views(game@));
                assert(string_views(jvm@) + Seq::<Seq<char>>::empty() =~= string_views(jvm@));
            }
        },
    }
    let gp = game_placeholders(ctx);
    let jp = jvm_placeholders(ctx);
    let mut game_final = finish_arguments(&game, &gp, windows);
    let mut jvm_final = finish_arguments(&jvm, &jp, windows);
    let ghost gf = string_views(game_final@);
    if fullscreen {
        push_literal(&mut game_final, "--fullscreen");
        push_literal(&mut game_final, "true");
        proof {
            assert(string_views(game_final@) =~= gf + seq!["--fullscreen"@, "true"@]);
        }
    } else {
        proof {
            assert(string_views(game_final@) =~= gf + Seq::<Seq<char>>::empty());
        }
    }
    let ghost jf = string_views(jvm_final@);
    match logging {
        Some(l) => {
            let arg = chars_of(l.argument.as_str());
            let key = chars_of("${path}");
            let path = chars_of(l.path.as_str());
            let done = string_of(&replace_all(&arg, &key, &path));
            jvm_final.push(done);
            proof {
                assert(string_views(jvm_final@) =~= jf + seq![done@]);
            }
        },
        None => {
            proof {
                assert(string_views(jvm_final@) =~= jf + Seq::<Seq<char>>::empty());
            }
        },
    }
    LaunchPlan { jvm_arguments: jvm_final, main_class: main, game_arguments: game_final }
}

proof fn lemma_expand_concat(a: Seq<ArgumentEntry>, b: Seq<ArgumentEntry>, platform: Platform, keep_gated: bool)
    ensures
        expand_spec(a + b, platform, keep_gated) == expand_spec(a, platform, keep_gated) + expand_spec(b, platform, keep_gated),
    decreases b.len(),
{
    if b.len() == 0 {
        assert(a + b =~= a);
        assert(expand_spec(a, platform, keep_gated) + Seq::<Seq<char>>::empty() =~= expand_spec(a, platform, keep_gated));
    } else {
        assert((a + b).drop_last() =~= a + b.drop_last());
        assert((a + b).last() == b.last());
        lemma_expand_concat(a, b.drop_last(), platform, keep_gated);
    }
}

/// Wherever it stands in a structured JVM list, a gated entry with no rules
/// contributes nothing, and one its rules include contributes all its
/// values in its place, between what the entries before and after it give.
pub proof fn lemma_gated_jvm_entry(
    before: Seq<ArgumentEntry>,
    rules: Vec<Rule>,
    values: Vec<String>,
    after: Seq<ArgumentEntry>,
    platform: Platform,
)
    ensures
        ({
            let list = before + seq![ArgumentEntry::Gated { rules, values }] + after;
            &&& rules@.len() == 0 ==> expand_spec(list, platform, true) == expand_spec(before, platform, true)
                + expand_spec(after, platform, true)
            &&& rules_result(rules@, platform.os@, platform.arch@, false) ==> expand_spec(list, platform, true)
                == expand_spec(before, platform, true) + string_views(values@) + expand_spec(after, platform, true)
        }),
{
    let e = ArgumentEntry::Gated { rules, values };
    let one = seq![e];
    lemma_expand_concat(before + one, after, platform, true);
    lemma_expand_concat(before, one, platform, true);
    assert(one.drop_last() =~= Seq::<ArgumentEntry>::empty());
    reveal_with_fuel(expand_spec, 2);
    assert(one.last() == e);
    assert(Seq::<Seq<char>>::empty() + entry_values(e, platform, true) =~= entry_values(e, platform, true));
    assert(expand_spec(one, platform, true) == entry_values(e, platform, true));
    assert(expand_spec(before, platform, true) + Seq::<Seq<char>>::empty() =~= expand_spec(before, platform, true));
}

/// The JVM arguments of a modern descriptor, before substitution, are its
/// list's expansion followed by the baseline flags.
pub proof fn lemma_jvm_then_baseline(game: Vec<ArgumentEntry>, jvm: Vec<ArgumentEntry>, platform: Platform, java_major: u64)
    ensures
        raw_jvm_spec(ArgumentTemplates::Modern { game, jvm }, platform, java_major) == expand_spec(jvm@, platform, true)
            + baseline_flags_spec(java_major),
{
}

/// With a loader selected whose jar exists, the client jar differs from
/// the vanilla one as soon as the loader's name differs from the version's.
pub proof fn lemma_loader_jar_differs(version: Seq<char>, loader: Seq<char>)
    requires
        loader.len() > 0,
        loader != version,
    ensures
        client_jar_spec(version, loader, true) != client_jar_spec(version, Seq::<char>::empty(), true),
{
    let a = loader + ".jar"@;
    let b = version + ".jar"@;
    if a == b {
        assert(a.len() == loader.len() + ".jar"@.len());
        assert(b.len() == version.len() + ".jar"@.len());
        assert(loader.len() == version.len());
        assert(a.subrange(0, loader.len() as int) =~= loader);
        assert(b.subrange(0, version.len() as int) =~= version);
    }
}

proof fn lemma_replaced_prefix(a: Seq<char>, b: Seq<char>, p: Seq<char>, v: Seq<char>)
    requires
        p.len() > 0,
        forall|i: int| 0 <= i < a.len() ==> a[i] != p[0],
    ensures
        replaced(a + b, p, v) == a + replaced(b, p, v),
    decreases a.len(),
{
    if a.len() == 0 {
        assert(a + b =~= b);
        assert(a + replaced(b, p, v) =~= replaced(b, p, v));
    } else {
        let s = a + b;
        assert(s[0] == a[0]);
        assert(!occurs_at(s, 0, p)) by {
            if s.len() >= p.len() {
                assert(s.subrange(0, p.len() as int)[0] == a[0]);
            }
        }
        assert(s.skip(1) =~= a.skip(1) + b);
        lemma_replaced_prefix(a.skip(1), b, p, v);
        assert(a =~= seq![a[0]] + a.skip(1));
        assert(seq![a[0]] + (a.skip(1) + replaced(b, p, v)) =~= a + replaced(b, p, v));
    }
}

proof fn lemma_split_single(t: Seq<char>, sep: char)
    requires
        forall|i: int| 0 <= i < t.len() ==> t[i] != sep,
    ensures
        split_spec(t, sep) == seq![t],
    decreases t.len(),
{
    if t.len() == 0 {
        assert(t =~= Seq::<char>::empty());
        assert(split_spec(t, sep) =~= seq![t]);
    } else {
        assert(t.last() != sep);
        lemma_split_single(t.drop_last(), sep);
        assert(t.drop_last().push(t.last()) =~= t);
        assert(split_spec(t, sep) =~= seq![t]);
    }
}

proof fn lemma_split_first_kept(t: Seq<char>, r: Seq<char>, sep: char)
    requires
        split_spec(t, sep).len() >= 2,
    ensures
        split_spec(t + r, sep).len() >= 2,
        split_spec(t + r, sep)[0] == split_spec(t, sep)[0],
    decreases r.len(),
{
    if r.len() == 0 {
        assert(t + r =~= t);
    } else {
        assert((t + r).drop_last() =~= t + r.drop_last());
        assert((t + r).last() == r.last());
        lemma_split_first_kept(t, r.drop_last(), sep);
    }
}

proof fn lemma_kept_first(parts: Seq<Seq<char>>, ignore: Seq<Seq<char>>, lp: Seq<char>)
    requires
        parts.len() >= 1,
        parts[0].len() > 0,
        !ignored(parts[0], ignore, lp),
    ensures
        kept_entries(parts, ignore, lp).len() >= 1,
        kept_entries(parts, ignore, lp)[0] == parts[0],
    decreases parts.len(),
{
    if parts.len() == 1 {
        assert(parts.drop_last() =~= Seq::<Seq<char>>::empty());
        assert(kept_entries(parts, ignore, lp) =~= seq![parts[0]]);
    } else {
        assert(parts.drop_last()[0] == parts[0]);
        lemma_kept_first(parts.drop_last(), ignore, lp);
    }
}

proof fn lemma_join_first(parts: Seq<Seq<char>>, sep: char)
    requires
        parts.len() >= 1,
    ensures
        join_spec(parts, sep).len() >= parts[0].len(),
        join_spec(parts, sep).take(parts[0].len() as int) == parts[0],
        parts.len() == 1 ==> join_spec(parts, sep) == parts[0],
        parts.len() >= 2 ==> join_spec(parts, sep)[parts[0].len() as int] == sep,
    decreases parts.len(),
{
    if parts.len() == 1 {
        assert(parts[0].take(parts[0].len() as int) =~= parts[0]);
    } else {
        let d = parts.drop_last();
        assert(d[0] == parts[0]);
        lemma_join_first(d, sep);
        let j = join_spec(d, sep);
        assert(join_spec(parts, sep) == j + seq![sep] + parts.last());
        assert((j + seq![sep] + parts.last()).take(parts[0].len() as int) =~= j.take(parts[0].len() as int));
        if d.len() == 1 {
            assert((j + seq![sep] + parts.last())[j.len() as int] == sep);
        }
    }
}

/// The client jar leads the classpath: when its path is not empty, holds
/// neither the separator nor `$`, and is not ignored, the classpath starts
/// with it, followed by the separator or nothing.
pub proof fn lemma_client_jar_leads_classpath(
    jar: Seq<char>,
    libraries: Seq<char>,
    loader_libraries: Option<Seq<char>>,
    ignore: Seq<Seq<char>>,
    libraries_path: Seq<char>,
    sep: char,
)
    requires
        jar.len() > 0,
        sep != '$',
        forall|i: int| 0 <= i < jar.len() ==> jar[i] != sep && jar[i] != '$',
        !ignored(jar, ignore, libraries_path),
    ensures
        ({
            let cp = classpath_spec(jar, libraries, loader_libraries, ignore, libraries_path, sep);
            &&& cp.len() >= jar.len()
            &&& cp.take(jar.len() as int) == jar
            &&& (cp.len() == jar.len() || cp[jar.len() as int] == sep)
        }),
{
    let key = "${libraries_path}"@;
    reveal_strlit("${libraries_path}");
    let rest = match loader_libraries {
        Some(l) => libraries + seq![sep] + l,
        None => libraries,
    };
    let joined = match loader_libraries {
        Some(l) => jar + seq![sep] + libraries + seq![sep] + l,
        None => jar + seq![sep] + libraries,
    };
    assert(joined =~= jar + (seq![sep] + rest));
    lemma_replaced_prefix(jar, seq![sep] + rest, key, libraries_path);
    lemma_replaced_prefix(seq![sep], rest, key, libraries_path);
    let r = replaced(rest, key, libraries_path);
    let full = root_substituted(joined, libraries_path);
    assert(full =~= jar.push(sep) + r);
    lemma_split_single(jar, sep);
    assert(jar.push(sep).drop_last() =~= jar);
    assert(split_spec(jar.push(sep), sep) =~= seq![jar, Seq::<char>::empty()]);
    lemma_split_first_kept(jar.push(sep), r, sep);
    let parts = split_spec(full, sep);
    lemma_kept_first(parts, ignore, libraries_path);
    let kept = kept_entries(parts, ignore, libraries_path);
    lemma_join_first(kept, sep);
}

} // verus!
