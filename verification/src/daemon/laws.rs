//! What holds of what runs: checks of groups, listeners, tasks and the service.

use crate::config::assemble::Config;
use crate::config::geo::GeoDataConfig;
use crate::config::listener::ListenerView;
use crate::config::raw::RawProxyGroup;
use crate::config::rule_provider::RuleProvider;
use crate::daemon::health;
use crate::daemon::service;
use crate::daemon::service::AgentPlaces;
use crate::daemon::startup;
use crate::daemon::startup::{RunPlan, Task};
use crate::net;
use crate::number;
use crate::text;
use vstd::prelude::*;
use vstd::string::*;

verus! {

/// The groups that choose by themselves are checked, and no others, each once and in the
/// order they stand.
pub proof fn law_which_groups_are_checked(a: Seq<RawProxyGroup>, g: RawProxyGroup)
    ensures
        health::checks_of(Seq::empty()).len() == 0,
        g.group_type@ == "url-test"@ || g.group_type@ == "fallback"@ ==> health::checks_of(
            a.push(g),
        ) == health::checks_of(a).push(health::check_of(g)),
        g.group_type@ != "url-test"@ && g.group_type@ != "fallback"@ ==> health::checks_of(
            a.push(g),
        ) == health::checks_of(a),
{
    assert(a.push(g).drop_last() =~= a);
}

/// A group is checked at the address and as often as it says, and otherwise at a usual
/// address every five minutes; it waits until it is used only where it says so.
pub proof fn law_how_groups_are_checked(g: RawProxyGroup)
    ensures
        ({
            let c = health::check_of(g);
            &&& c.group_name == g.name@
            &&& g.url matches Some(u) ==> c.url == u@
            &&& g.url is None ==> c.url == "http://www.gstatic.com/generate_204"@
            &&& g.interval matches Some(n) ==> c.interval_secs == n
            &&& g.interval is None ==> c.interval_secs == 5 * 60
            &&& c.lazy <==> (g.lazy matches Some(l) && l)
        }),
{
}

/// The members that are known are checked, in the order they stand, and no others.
pub proof fn law_known_members_are_checked(
    names: Seq<Seq<char>>,
    known: Seq<bool>,
    name: Seq<char>,
    is_known: bool,
)
    requires
        names.len() == known.len(),
    ensures
        health::existing(Seq::empty(), known).len() == 0,
        is_known ==> health::existing(names.push(name), known.push(is_known)) == health::existing(
            names,
            known,
        ).push(name),
        !is_known ==> health::existing(names.push(name), known.push(is_known)) == health::existing(
            names,
            known,
        ),
{
    assert(names.push(name).drop_last() =~= names);
    lemma_existing(names, known, known.push(is_known));
}

proof fn lemma_existing(names: Seq<Seq<char>>, a: Seq<bool>, b: Seq<bool>)
    requires
        names.len() <= a.len(),
        names.len() <= b.len(),
        forall|i: int| 0 <= i < names.len() ==> #[trigger] a[i] == #[trigger] b[i],
    ensures
        health::existing(names, a) == health::existing(names, b),
    decreases names.len(),
{
    if names.len() > 0 {
        lemma_existing(names.drop_last(), a, b);
        assert(a[names.len() - 1] == b[names.len() - 1]);
    }
}

/// A member has answered where it took some time: a delay of nothing stands for none.
pub proof fn law_who_answered(delays: Seq<u16>, d: u16)
    ensures
        health::answered(Seq::empty()) == 0,
        d == 0 ==> health::answered(delays.push(d)) == health::answered(delays),
        d != 0 ==> health::answered(delays.push(d)) == health::answered(delays) + 1,
{
    assert(delays.push(d).drop_last() =~= delays);
}

/// Listeners are started in the order they stand, each at its own address and port, up to
/// the first whose address is none; only those of the transparent kind are transparent.
pub proof fn law_listeners_start_in_order(l: Seq<ListenerView>, n: nat, i: int)
    requires
        n <= l.len(),
        n <= usize::MAX,
    ensures
        startup::starts(l, n).len() <= n,
        0 <= i < startup::starts(l, n).len() ==> {
            let s = startup::starts(l, n)[i];
            &&& s.position == i
            &&& net::socket(l[i].listen + seq![':'] + number::decimal(l[i].port as nat)) == Some(
                s.address,
            )
            &&& s.transparent <==> l[i].listener_type is TProxy
        },
        i == startup::starts(l, n).len() && i < n ==> net::socket(
            l[i].listen + seq![':'] + number::decimal(l[i].port as nat),
        ) is None,
    decreases n,
{
    reveal_strlit(":");
    assert(":"@ =~= seq![':']);
    if n > 0 {
        let m = (n - 1) as nat;
        law_listeners_start_in_order(l, m, i);
        if i == startup::starts(l, n).len() && i < n && startup::starts(l, m).len() < m {
            law_listeners_start_in_order(l, m, startup::starts(l, m).len() as int);
        }
    }
}

/// A provider is refreshed again and again exactly where it is downloaded and says how
/// often.
pub proof fn law_who_is_refreshed(p: Seq<RuleProvider>, x: RuleProvider)
    ensures
        startup::repeating(Seq::empty()).len() == 0,
        (x@.provider_type is Http && x@.interval >= 1) ==> startup::repeating(p.push(x))
            == startup::repeating(p).push(p.len() as int),
        !(x@.provider_type is Http && x@.interval >= 1) ==> startup::repeating(p.push(x))
            == startup::repeating(p),
{
    assert(p.push(x).drop_last() =~= p);
}

/// What goes on besides: the refreshes, then the subscriptions and the databases; the
/// databases are renewed as often as is said, exactly where it is said that they are.
pub proof fn law_what_goes_on(p: Seq<RuleProvider>, g: GeoDataConfig)
    ensures
        ({
            let t = startup::tasks_of(p, g);
            let r = startup::repeating(p);
            &&& t.len() == r.len() + (if g.auto_update {
                3int
            } else {
                2
            })
            &&& forall|i: int|
                0 <= i < r.len() ==> #[trigger] t[i] == Task::RefreshRules(r[i] as usize)
            &&& t[r.len() as int] is RefreshSubscriptions
            &&& t[r.len() as int + 1] is FetchDatabases
            &&& g.auto_update ==> t[r.len() as int + 2] == Task::UpdateDatabases(
                g.auto_update_interval,
            )
        }),
{
}

/// A run checks the groups of its configuration, answers where the configuration says,
/// and starts the listeners that the configuration names; it is complete where all of
/// them start.
pub proof fn law_runs_follow_the_configuration(config: &Config, p: RunPlan)
    requires
        call_ensures(startup::run, (config,), p),
    ensures
        p.dns == config.dns.listen,
        p.api == config.api.external_controller,
        p.complete <==> p.listeners@.len() == config.listeners.named@.len(),
        p.listeners@ == startup::starts(
            crate::config::listener::listener_views(config.listeners.named@),
            config.listeners.named@.len(),
        ),
        p.tasks@ == startup::tasks_of(config.rule_providers@, config.geodata),
        health::check_views(p.health_checks@) == health::checks_of(
            crate::config::proxy_registry::groups_in(config.raw),
        ),
{
}

/// The service starts the program with its configuration, works in the directory of the
/// configuration, and may write there.
pub proof fn law_the_service_runs_the_program(exe: Seq<char>, path: Seq<char>)
    ensures
        ({
            let u = service::unit_text(exe, path);
            let d = service::directory_of(path);
            &&& text::has_substring(u, "ExecStart="@ + exe + " -f "@ + path + "\n"@)
            &&& text::has_substring(u, "\nWorkingDirectory="@ + d + "\n"@)
            &&& text::has_substring(u, "\nReadWritePaths="@ + d + "\n"@)
        }),
{
    let u = service::unit_text(exe, path);
    let d = service::directory_of(path);
    reveal_strlit(
        "[Unit]\nDescription=meow proxy service\nAfter=network-online.target\nWants=network-online.target\n\n[Service]\nType=simple\nExecStart=",
    );
    reveal_strlit("ExecStart=");
    reveal_strlit(" -f ");
    reveal_strlit("\n");
    reveal_strlit("\nWorkingDirectory=");
    reveal_strlit("\nReadWritePaths=");
    reveal_strlit(
        "\nRestart=on-failure\nRestartSec=5\nLimitNOFILE=1048576\nProtectSystem=strict\nReadWritePaths=",
    );
    reveal_strlit("\n\n[Install]\nWantedBy=multi-user.target\n");
    let head =
        "[Unit]\nDescription=meow proxy service\nAfter=network-online.target\nWants=network-online.target\n\n[Service]\nType=simple\nExecStart="@;
    let middle =
        "\nRestart=on-failure\nRestartSec=5\nLimitNOFILE=1048576\nProtectSystem=strict\nReadWritePaths="@;
    let first = "ExecStart="@ + exe + " -f "@ + path + "\n"@;
    let at: int = head.len() as int - 10;
    assert(u.subrange(at, at + first.len()) =~= first);
    assert(text::occurs_at(u, at, first));
    let works = "\nWorkingDirectory="@ + d + "\n"@;
    let then: int = head.len() as int + exe.len() as int + 4 + path.len() as int;
    assert(u.subrange(then, then + works.len()) =~= works);
    assert(text::occurs_at(u, then, works));
    let writes = "\nReadWritePaths="@ + d + "\n"@;
    let last: int = then + "\nWorkingDirectory="@.len() as int + d.len() as int
        + middle.len() as int - "\nReadWritePaths="@.len() as int;
    assert(u.subrange(last, last + writes.len()) =~= writes);
    assert(text::occurs_at(u, last, writes));
}

/// The agent is started with the program, its flag and its configuration, in that order,
/// and tells its two streams to two files among the logs.
pub proof fn law_the_agent_runs_the_program(
    exe: Seq<char>,
    config: Seq<char>,
    support: Seq<char>,
    logs: Seq<char>,
)
    ensures
        ({
            let t = service::agent_text(exe, config, support, logs);
            &&& text::has_substring(t, "<string>"@ + exe + "</string>"@)
            &&& text::has_substring(
                t,
                "<string>-f</string>\n        <string>"@ + config + "</string>"@,
            )
            &&& text::has_substring(
                t,
                "<key>WorkingDirectory</key>\n    <string>"@ + support + "</string>"@,
            )
            &&& text::has_substring(
                t,
                "<key>StandardOutPath</key>\n    <string>"@ + logs + "/meow.log</string>"@,
            )
            &&& text::has_substring(
                t,
                "<key>StandardErrorPath</key>\n    <string>"@ + logs + "/meow.err.log</string>"@,
            )
        }),
{
    let t = service::agent_text(exe, config, support, logs);
    let l0 =
        "<?xml version=\"1.0\" encoding=\"UTF-8\"?>\n<!DOCTYPE plist PUBLIC \"-//Apple//DTD PLIST 1.0//EN\" \"http://www.apple.com/DTDs/PropertyList-1.0.dtd\">\n<plist version=\"1.0\">\n<dict>\n    <key>Label</key>\n    <string>"@;
    let l1 = "</string>\n    <key>ProgramArguments</key>\n    <array>\n        <string>"@;
    let l2 = "</string>\n        <string>-f</string>\n        <string>"@;
    let l3 = "</string>\n    </array>\n    <key>WorkingDirectory</key>\n    <string>"@;
    let l4 =
        "</string>\n    <key>RunAtLoad</key>\n    <true/>\n    <key>KeepAlive</key>\n    <true/>\n    <key>StandardOutPath</key>\n    <string>"@;
    let l5 = "/meow.log</string>\n    <key>StandardErrorPath</key>\n    <string>"@;
    let l6 = "/meow.err.log</string>\n</dict>\n</plist>\n"@;
    reveal_strlit("</string>\n    <key>ProgramArguments</key>\n    <array>\n        <string>");
    reveal_strlit("</string>\n        <string>-f</string>\n        <string>");
    reveal_strlit("</string>\n    </array>\n    <key>WorkingDirectory</key>\n    <string>");
    reveal_strlit(
        "</string>\n    <key>RunAtLoad</key>\n    <true/>\n    <key>KeepAlive</key>\n    <true/>\n    <key>StandardOutPath</key>\n    <string>",
    );
    reveal_strlit("/meow.log</string>\n    <key>StandardErrorPath</key>\n    <string>");
    reveal_strlit("/meow.err.log</string>\n</dict>\n</plist>\n");
    reveal_strlit("<string>");
    reveal_strlit("</string>");
    reveal_strlit("<string>-f</string>\n        <string>");
    reveal_strlit("<key>WorkingDirectory</key>\n    <string>");
    reveal_strlit("<key>StandardOutPath</key>\n    <string>");
    reveal_strlit("<key>StandardErrorPath</key>\n    <string>");
    reveal_strlit("/meow.log</string>");
    reveal_strlit("/meow.err.log</string>");
    let a: int = l0.len() as int + service::LAUNCHD_LABEL@.len() as int + l1.len() as int;
    let b: int = a + exe.len() as int + l2.len() as int;
    let c: int = b + config.len() as int + l3.len() as int;
    let d: int = c + support.len() as int + l4.len() as int;
    let e: int = d + logs.len() as int + l5.len() as int;
    let s1 = "<string>"@ + exe + "</string>"@;
    assert(t.subrange(a - 8, a - 8 + s1.len()) =~= s1);
    assert(text::occurs_at(t, a - 8, s1));
    let w2 = "<string>-f</string>\n        <string>"@;
    let s2 = w2 + config + "</string>"@;
    assert(t.subrange(b - w2.len(), b - w2.len() + s2.len()) =~= s2);
    assert(text::occurs_at(t, b - w2.len(), s2));
    let w3 = "<key>WorkingDirectory</key>\n    <string>"@;
    let s3 = w3 + support + "</string>"@;
    assert(t.subrange(c - w3.len(), c - w3.len() + s3.len()) =~= s3);
    assert(text::occurs_at(t, c - w3.len(), s3));
    let w4 = "<key>StandardOutPath</key>\n    <string>"@;
    let s4 = w4 + logs + "/meow.log</string>"@;
    assert(t.subrange(d - w4.len(), d - w4.len() + s4.len()) =~= s4);
    assert(text::occurs_at(t, d - w4.len(), s4));
    let w5 = "<key>StandardErrorPath</key>\n    <string>"@;
    let s5 = w5 + logs + "/meow.err.log</string>"@;
    assert(t.subrange(e - w5.len(), e - w5.len() + s5.len()) =~= s5);
    assert(text::occurs_at(t, e - w5.len(), s5));
}

/// The service is kept under its name.
pub proof fn law_where_the_service_is_kept(s: String)
    requires
        call_ensures(service::unit_path, (), s),
    ensures
        s@ == "/etc/systemd/system/meow.service"@,
{
    reveal_strlit("/etc/systemd/system/meow.service");
    reveal_strlit("/etc/systemd/system/");
    reveal_strlit(".service");
    reveal_strlit("meow");
    assert(s@ =~= "/etc/systemd/system/meow.service"@);
}

/// The service reads the configuration that is named, and the usual one where none is,
/// seen from where the service is set up; an absolute one is read where it is.
pub proof fn law_which_configuration_the_service_reads(
    named: Option<Seq<char>>,
    usual: Seq<char>,
    here: Seq<char>,
)
    ensures
        named matches Some(n) ==> n.len() > 0 && n[0] == '/' ==> service::service_config(
            named,
            usual,
            here,
        ) == n,
        named is None && usual.len() > 0 && usual[0] == '/' ==> service::service_config(
            named,
            usual,
            here,
        ) == usual,
        here.len() > 0 && here.last() != '/' ==> {
            let n = match named {
                Some(n) => n,
                None => usual,
            };
            !(n.len() > 0 && n[0] == '/') ==> service::service_config(named, usual, here)
                == here.push('/') + n
        },
{
    reveal_strlit("/");
    let n = match named {
        Some(n) => n,
        None => usual,
    };
    crate::path_laws::law_names_are_put_below_directories(here, n);
}

/// A run in a directory reads the configuration there, and otherwise where it is.
pub proof fn law_which_configuration_a_run_reads(directory: Option<&str>, config: &str, s: String)
    requires
        call_ensures(service::config_for_run, (directory, config), s),
    ensures
        directory is None ==> s@ == config@,
        directory matches Some(d) ==> s@ == d@.push('/') + config@,
{
    reveal_strlit("/");
    if let Some(d) = directory {
        assert(d@ + "/"@ + config@ =~= d@.push('/') + config@);
    }
}

/// What is kept of the agent stands in three different places below the home directory.
pub proof fn law_where_the_agent_is_kept(home: &str, p: AgentPlaces)
    requires
        call_ensures(service::macos_dirs, (home,), p),
        home@.len() > 0,
        home@.last() != '/',
    ensures
        p.support@ == home@ + "/Library/Application Support/meow"@,
        p.logs@ == home@ + "/Library/Logs/meow"@,
        p.agents@ == home@ + "/Library/LaunchAgents"@,
{
    reveal_strlit("/");
    reveal_strlit("Library/Application Support/meow");
    reveal_strlit("/Library/Application Support/meow");
    reveal_strlit("Library/Logs/meow");
    reveal_strlit("/Library/Logs/meow");
    reveal_strlit("Library/LaunchAgents");
    reveal_strlit("/Library/LaunchAgents");
    crate::path_laws::law_names_are_put_below_directories(
        home@,
        "Library/Application Support/meow"@,
    );
    crate::path_laws::law_names_are_put_below_directories(home@, "Library/Logs/meow"@);
    crate::path_laws::law_names_are_put_below_directories(home@, "Library/LaunchAgents"@);
    assert(p.support@ =~= home@ + "/Library/Application Support/meow"@);
    assert(p.logs@ =~= home@ + "/Library/Logs/meow"@);
    assert(p.agents@ =~= home@ + "/Library/LaunchAgents"@);
}

/// The service works in the directory of its configuration, and in the root where that
/// has none.
pub proof fn law_where_the_service_works(base: Seq<char>, name: Seq<char>)
    requires
        base.len() > 0,
        base.last() != '/',
        base.last() != '.',
        crate::path_laws::plain_name(name),
    ensures
        service::directory_of(crate::paths::joined(base, name)) == base,
        service::directory_of(name) == seq!['/'],
        service::directory_of(seq!['/'] + name) == seq!['/'],
        service::directory_of(seq!['/']) == seq!['/'],
{
    reveal_strlit("/");
    assert("/"@ =~= seq!['/']);
    crate::path_laws::law_directories_are_found_again(base, name);
    crate::path_laws::law_the_root_is_found_again(name);
}

/// What is told of a command that failed: the command, what it was given, and how it
/// ended.
pub proof fn law_what_is_told_of_commands(
    command: &str,
    args: &Vec<String>,
    status: &str,
    s: String,
)
    requires
        call_ensures(service::command_error, (command, args, status), s),
    ensures
        command@.is_prefix_of(s@),
        status@.is_suffix_of(s@),
{
    assert(s@.subrange(0, command@.len() as int) =~= command@);
    assert(s@.subrange(s@.len() - status@.len(), s@.len() as int) =~= status@);
}

} // verus!
