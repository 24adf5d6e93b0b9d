use vstd::prelude::*;

use crate::cli::tokens::{has_flag, key_value_of, is_flag, last_value, opt_view, token_views};

verus! {

/// Installer options given as `--key=value` tokens.
#[derive(Debug, Default)]
pub struct InstallArgs {
    pub backend_host: Option<String>,
    pub mqtt_broker_host: Option<String>,
    pub device_name: Option<String>,
}

/// Command-line arguments of the agent binary.
#[derive(Debug, Default)]
pub struct Args {
    pub display_version: bool,
    pub install_args: Option<InstallArgs>,
}

impl InstallArgs {
    /// Whether these options are what `tokens` set: for each key, the value of the last
    /// token that sets it (an empty value reads as absent).
    pub open spec fn parsed_from(self, tokens: Seq<Seq<char>>) -> bool {
        &&& opt_view(self.backend_host) == last_value(tokens, "backend-host"@, tokens.len() as int)
        &&& opt_view(self.mqtt_broker_host) == last_value(
            tokens,
            "mqtt-broker-host"@,
            tokens.len() as int,
        )
        &&& opt_view(self.device_name) == last_value(tokens, "device-name"@, tokens.len() as int)
    }

    /// Read the installer options from the command line; the first token (the program
    /// name) is skipped, tokens without `=` or with an unknown key are ignored, and the
    /// last occurrence of a key wins.
    pub fn parse(inputs: &[String]) -> (r: Self)
        ensures
            r.parsed_from(token_views(inputs@)),
    {
        let ghost tokens = token_views(inputs@);
        let mut args = InstallArgs { backend_host: None, mqtt_broker_host: None, device_name: None };
        let n = inputs.len();
        if n == 0 {
            return args;
        }
        let mut i: usize = 1;
        while i < n
            invariant
                n == inputs@.len(),
                tokens == token_views(inputs@),
                1 <= i <= n,
                opt_view(args.backend_host) == last_value(tokens, "backend-host"@, i as int),
                opt_view(args.mqtt_broker_host) == last_value(
                    tokens,
                    "mqtt-broker-host"@,
                    i as int,
                ),
                opt_view(args.device_name) == last_value(tokens, "device-name"@, i as int),
            decreases n - i,
        {
            let token = inputs[i].as_str();
            assert(token@ == tokens[i as int]);
            if let Some(v) = key_value_of(token, "backend-host") {
                args.backend_host = v;
            }
            if let Some(v) = key_value_of(token, "mqtt-broker-host") {
                args.mqtt_broker_host = v;
            }
            if let Some(v) = key_value_of(token, "device-name") {
                args.device_name = v;
            }
            i = i + 1;
        }
        args
    }
}

impl Args {
    /// Read the command line: `version` (with any leading dashes) asks for the version,
    /// and `install` asks for the installer options, which are read from all tokens.
    pub fn parse(inputs: &[String]) -> (r: Self)
        ensures
            r.display_version == has_flag(token_views(inputs@), "version"@, inputs@.len() as int),
            r.install_args is Some == has_flag(
                token_views(inputs@),
                "install"@,
                inputs@.len() as int,
            ),
            r.install_args matches Some(ia) ==> ia.parsed_from(token_views(inputs@)),
    {
        let ghost tokens = token_views(inputs@);
        let mut args = Args { display_version: false, install_args: None };
        let n = inputs.len();
        if n == 0 {
            return args;
        }
        let mut i: usize = 1;
        while i < n
            invariant
                n == inputs@.len(),
                tokens == token_views(inputs@),
                1 <= i <= n,
                args.display_version == has_flag(tokens, "version"@, i as int),
                args.install_args is Some == has_flag(tokens, "install"@, i as int),
                args.install_args matches Some(ia) ==> ia.parsed_from(tokens),
            decreases n - i,
        {
            let token = inputs[i].as_str();
            assert(token@ == tokens[i as int]);
            if is_flag(token, "version") {
                args.display_version = true;
            }
            if is_flag(token, "install") {
                args.install_args = Some(InstallArgs::parse(inputs));
            }
            i = i + 1;
        }
        args
    }
}

} // verus!
