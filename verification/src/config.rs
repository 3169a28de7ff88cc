//! Settings of the authorization.

use crate::text::{
    law_only_slashes_trim_to_nothing, parse_u64, parsed_u64, same_text, trim_end_slashes, without_end_slashes,
};
use vstd::prelude::*;

verus! {

/// Default of the request timeout, in milliseconds.
pub const DEFAULT_TIMEOUT_MS: u64 = 2500;

/// Default of the time that a verdict is kept, in seconds.
pub const DEFAULT_CACHE_SECS: u64 = 60;

/// Default of the time between two reports of one peer, in seconds.
pub const DEFAULT_SEEN_SECS: u64 = 300;

/// Default of the time that a connection attempt stands for its repeats, in
/// seconds.
pub const DEFAULT_ATTEMPT_DEDUPE_SECS: u64 = 60;

/// The arguments that settings are read from; `None` where one is not given.
pub struct Args {
    pub control_api_url: Option<String>,
    pub control_api_token: Option<String>,
    pub control_api_fail_open: Option<String>,
    pub control_api_timeout_ms: Option<String>,
    pub control_api_cache_secs: Option<String>,
    pub control_api_seen_secs: Option<String>,
    pub control_api_attempts: Option<String>,
    pub control_api_attempt_dedupe_secs: Option<String>,
}

/// The settings.
pub struct Config {
    /// Base of the control API's addresses; empty where authorization is off.
    pub url: String,
    /// Presented to the control API with every request, where it is not empty.
    pub token: String,
    /// Whether a controller passes when the control API gives no verdict.
    pub fail_open: bool,
    pub timeout_ms: u64,
    pub cache_secs: u64,
    pub seen_secs: u64,
    /// Whether connection attempts are reported.
    pub attempts: bool,
    pub attempt_dedupe_secs: u64,
}

/// The settings, with texts as their characters.
pub struct ConfigView {
    pub url: Seq<char>,
    pub token: Seq<char>,
    pub fail_open: bool,
    pub timeout_ms: u64,
    pub cache_secs: u64,
    pub seen_secs: u64,
    pub attempts: bool,
    pub attempt_dedupe_secs: u64,
}

impl View for Config {
    type V = ConfigView;

    open spec fn view(&self) -> ConfigView {
        ConfigView {
            url: self.url@,
            token: self.token@,
            fail_open: self.fail_open,
            timeout_ms: self.timeout_ms,
            cache_secs: self.cache_secs,
            seen_secs: self.seen_secs,
            attempts: self.attempts,
            attempt_dedupe_secs: self.attempt_dedupe_secs,
        }
    }
}

/// An argument's text, empty where it is not given.
pub open spec fn arg_text(arg: Option<String>) -> Seq<char> {
    match arg {
        Some(s) => s@,
        None => Seq::empty(),
    }
}

/// An argument's number, or `default` where it is not given or no number.
pub open spec fn arg_number(arg: Option<String>, default: u64) -> u64 {
    match arg {
        Some(s) => match parsed_u64(s@) {
            Some(n) => n,
            None => default,
        },
        None => default,
    }
}

fn text_or_empty(arg: &Option<String>) -> (text: String)
    ensures
        text@ == arg_text(*arg),
{
    match arg {
        Some(s) => s.clone(),
        None => String::new(),
    }
}

fn number_or(arg: &Option<String>, default: u64) -> (n: u64)
    ensures
        n == arg_number(*arg, default),
{
    match arg {
        Some(s) => match parse_u64(s.as_str()) {
            Some(n) => n,
            None => default,
        },
        None => default,
    }
}

/// The settings that the arguments give.
pub open spec fn config_of(args: Args) -> ConfigView {
    ConfigView {
        url: without_end_slashes(arg_text(args.control_api_url)),
        token: arg_text(args.control_api_token),
        fail_open: arg_text(args.control_api_fail_open) == "Y"@ || arg_text(
            args.control_api_fail_open,
        ) == "y"@,
        timeout_ms: arg_number(args.control_api_timeout_ms, DEFAULT_TIMEOUT_MS),
        cache_secs: arg_number(args.control_api_cache_secs, DEFAULT_CACHE_SECS),
        seen_secs: arg_number(args.control_api_seen_secs, DEFAULT_SEEN_SECS),
        attempts: !(arg_text(args.control_api_attempts) == "N"@ || arg_text(
            args.control_api_attempts,
        ) == "n"@),
        attempt_dedupe_secs: arg_number(
            args.control_api_attempt_dedupe_secs,
            DEFAULT_ATTEMPT_DEDUPE_SECS,
        ),
    }
}

impl Config {
    /// Reads the settings.
    ///
    /// The address loses the slashes at its end. `fail_open` holds for `Y`, and
    /// `attempts` for everything but `N`, in either case of the letter. A number
    /// that cannot be read takes its default.
    pub fn from_args(args: &Args) -> (config: Config)
        ensures
            config@ == config_of(*args),
            config.url@ == without_end_slashes(arg_text(args.control_api_url)),
            config.token@ == arg_text(args.control_api_token),
            config.fail_open <==> arg_text(args.control_api_fail_open) == "Y"@ || arg_text(
                args.control_api_fail_open,
            ) == "y"@,
            config.timeout_ms == arg_number(args.control_api_timeout_ms, DEFAULT_TIMEOUT_MS),
            config.cache_secs == arg_number(args.control_api_cache_secs, DEFAULT_CACHE_SECS),
            config.seen_secs == arg_number(args.control_api_seen_secs, DEFAULT_SEEN_SECS),
            !config.attempts <==> arg_text(args.control_api_attempts) == "N"@ || arg_text(
                args.control_api_attempts,
            ) == "n"@,
            config.attempt_dedupe_secs == arg_number(
                args.control_api_attempt_dedupe_secs,
                DEFAULT_ATTEMPT_DEDUPE_SECS,
            ),
    {
        let url = text_or_empty(&args.control_api_url);
        let fail_open = text_or_empty(&args.control_api_fail_open);
        let attempts = text_or_empty(&args.control_api_attempts);
        Config {
            url: trim_end_slashes(url.as_str()),
            token: text_or_empty(&args.control_api_token),
            fail_open: same_text(fail_open.as_str(), "Y") || same_text(fail_open.as_str(), "y"),
            timeout_ms: number_or(&args.control_api_timeout_ms, DEFAULT_TIMEOUT_MS),
            cache_secs: number_or(&args.control_api_cache_secs, DEFAULT_CACHE_SECS),
            seen_secs: number_or(&args.control_api_seen_secs, DEFAULT_SEEN_SECS),
            attempts: !(same_text(attempts.as_str(), "N") || same_text(attempts.as_str(), "n")),
            attempt_dedupe_secs: number_or(
                &args.control_api_attempt_dedupe_secs,
                DEFAULT_ATTEMPT_DEDUPE_SECS,
            ),
        }
    }
}

/// Whether authorization is on.
pub open spec fn enabled(config: ConfigView) -> bool {
    config.url.len() > 0
}

/// Tells whether authorization is on: whether there is an address to ask.
pub fn is_enabled(config: &Config) -> (on: bool)
    ensures
        on == enabled(config@),
        on == (config.url@.len() != 0),
{
    !config.url.as_str().is_empty()
}

/// Authorization is on exactly where the address is not empty, whatever the other settings
/// are and however the address begins.
pub proof fn law_an_address_switches_on(config: ConfigView)
    ensures
        enabled(config) <==> config.url != Seq::<char>::empty(),
{
    if config.url.len() == 0 {
        assert(config.url =~= Seq::<char>::empty());
    }
}

/// The settings as characters are the settings, whole.
pub proof fn law_settings_are_whole(config: Config)
    ensures
        config@.url == config.url@,
        config@.token == config.token@,
        config@.fail_open == config.fail_open,
        config@.timeout_ms == config.timeout_ms,
        config@.cache_secs == config.cache_secs,
        config@.seen_secs == config.seen_secs,
        config@.attempts == config.attempts,
        config@.attempt_dedupe_secs == config.attempt_dedupe_secs,
{
}

/// The arguments switch authorization on exactly where an address is given that holds
/// another character than a slash.
pub proof fn law_arguments_switch_on(args: Args)
    ensures
        enabled(config_of(args)) <==> args.control_api_url is Some && exists|i: int|
            0 <= i < args.control_api_url->0@.len() && (#[trigger] args.control_api_url->0@[i])
                != '/',
{
    law_only_slashes_trim_to_nothing(arg_text(args.control_api_url));
}

/// The address and the token are those that are given, the address without the slashes at
/// its end: what was cut is nothing but slashes, and the rest ends in none.
pub proof fn law_given_texts_are_kept(args: Args)
    ensures
        args.control_api_url is Some ==> {
            let given = args.control_api_url->0@;
            let kept = config_of(args).url;
            &&& kept.len() <= given.len()
            &&& forall|i: int| 0 <= i < kept.len() ==> #[trigger] kept[i] == given[i]
            &&& forall|i: int| kept.len() <= i < given.len() ==> #[trigger] given[i] == '/'
            &&& kept.len() > 0 ==> kept[kept.len() - 1] != '/'
        },
        args.control_api_url is None ==> config_of(args).url.len() == 0,
        args.control_api_token is Some ==> config_of(args).token == args.control_api_token->0@,
        args.control_api_token is None ==> config_of(args).token.len() == 0,
{
    crate::text::law_trimmed_has_no_end_slash(arg_text(args.control_api_url));
}

/// A failure lets controllers pass exactly where the argument is the letter Y, and attempts
/// go unreported exactly where theirs is the letter N, large or small.
pub proof fn law_letters_switch(args: Args)
    ensures
        config_of(args).fail_open <==> args.control_api_fail_open is Some
            && args.control_api_fail_open->0@.len() == 1 && (args.control_api_fail_open->0@[0]
            == 'Y' || args.control_api_fail_open->0@[0] == 'y'),
        !config_of(args).attempts <==> args.control_api_attempts is Some
            && args.control_api_attempts->0@.len() == 1 && (args.control_api_attempts->0@[0] == 'N'
            || args.control_api_attempts->0@[0] == 'n'),
{
    reveal_strlit("Y");
    reveal_strlit("y");
    reveal_strlit("N");
    reveal_strlit("n");
    if args.control_api_fail_open is Some {
        let given = args.control_api_fail_open->0@;
        if given.len() == 1 && given[0] == 'Y' {
            assert(given =~= "Y"@);
        }
        if given.len() == 1 && given[0] == 'y' {
            assert(given =~= "y"@);
        }
    }
    if args.control_api_attempts is Some {
        let given = args.control_api_attempts->0@;
        if given.len() == 1 && given[0] == 'N' {
            assert(given =~= "N"@);
        }
        if given.len() == 1 && given[0] == 'n' {
            assert(given =~= "n"@);
        }
    }
}

/// A time that is given as a number is that number, each argument setting its own.
pub proof fn law_given_times_are_kept(args: Args, n: u64)
    ensures
        args.control_api_timeout_ms is Some && parsed_u64(args.control_api_timeout_ms->0@) == Some(n)
            ==> config_of(args).timeout_ms == n,
        args.control_api_cache_secs is Some && parsed_u64(args.control_api_cache_secs->0@) == Some(n)
            ==> config_of(args).cache_secs == n,
        args.control_api_seen_secs is Some && parsed_u64(args.control_api_seen_secs->0@) == Some(n)
            ==> config_of(args).seen_secs == n,
        args.control_api_attempt_dedupe_secs is Some && parsed_u64(
            args.control_api_attempt_dedupe_secs->0@,
        ) == Some(n) ==> config_of(args).attempt_dedupe_secs == n,
{
}

/// A time that is not given, or not as a number, takes its default: two and a half seconds
/// for a request, a minute for a verdict, five minutes between the reports of a peer, and a
/// minute for an attempt.
pub proof fn law_times_have_defaults(args: Args)
    ensures
        args.control_api_timeout_ms is None || parsed_u64(args.control_api_timeout_ms->0@) is None
            ==> config_of(args).timeout_ms == 2500,
        args.control_api_cache_secs is None || parsed_u64(args.control_api_cache_secs->0@) is None
            ==> config_of(args).cache_secs == 60,
        args.control_api_seen_secs is None || parsed_u64(args.control_api_seen_secs->0@) is None
            ==> config_of(args).seen_secs == 300,
        args.control_api_attempt_dedupe_secs is None || parsed_u64(
            args.control_api_attempt_dedupe_secs->0@,
        ) is None ==> config_of(args).attempt_dedupe_secs == 60,
{
}

} // verus!
