pub mod install;
pub mod tokens;

use vstd::prelude::*;

use crate::cli::tokens::{has_flag, is_flag, key_value_of, last_value, opt_view, token_views};

verus! {

/// Provisioning options given as `--key=value` tokens.
#[derive(Debug, Default)]
pub struct ProvisionArgs {
    pub backend_host: Option<String>,
    pub mqtt_broker_host: Option<String>,
    pub device_name: Option<String>,
}

/// Reprovisioning options given as `--key=value` tokens.
#[derive(Debug, Default)]
pub struct ReprovisionArgs {
    pub backend_host: Option<String>,
    pub mqtt_broker_host: Option<String>,
}

/// Command-line arguments of the provisioning binary.
#[derive(Debug, Default)]
pub struct Args {
    pub display_version: bool,
    pub provision_args: Option<ProvisionArgs>,
    pub reprovision_args: Option<ReprovisionArgs>,
}

impl ProvisionArgs {
    /// Whether these options are what `tokens` set (last occurrence of a key wins, an
    /// empty value reads as absent).
    pub open spec fn parsed_from(self, tokens: Seq<Seq<char>>) -> bool {
        &&& opt_view(self.backend_host) == last_value(tokens, "backend-host"@, tokens.len() as int)
        &&& opt_view(self.mqtt_broker_host) == last_value(
            tokens,
            "mqtt-broker-host"@,
            tokens.len() as int,
        )
        &&& opt_view(self.device_name) == last_value(tokens, "device-name"@, tokens.len() as int)
    }

    /// Read the provisioning options; the first token is skipped and tokens without `=`
    /// or with an unknown key are ignored.
    pub fn parse(inputs: &[String]) -> (r: Self)
        ensures
            r.parsed_from(token_views(inputs@)),
    {
        let ghost tokens = token_views(inputs@);
        let mut args = ProvisionArgs {
            backend_host: None,
            mqtt_broker_host: None,
            device_name: None,
        };
        let n = inputs.len();
        if n == 0 {
            return args;
        }
        let mut i: usize = 1;
        while i < n
            invariant
                n == inputs@.len(),
                tokens == token_views(inputs@),
                1 <= i <= n,
                opt_view(args.backend_host) == last_value(tokens, "backend-host"@, i as int),
                opt_view(args.mqtt_broker_host) == last_value(
                    tokens,
                    "mqtt-broker-host"@,
                    i as int,
                ),
                opt_view(args.device_name) == last_value(tokens, "device-name"@, i as int),
            decreases n - i,
        {
            let token = inputs[i].as_str();
            assert(token@ == tokens[i as int]);
            if let Some(v) = key_value_of(token, "backend-host") {
                args.backend_host = v;
            }
            if let Some(v) = key_value_of(token, "mqtt-broker-host") {
                args.mqtt_broker_host = v;
            }
            if let Some(v) = key_value_of(token, "device-name") {
                args.device_name = v;
            }
            i = i + 1;
        }
        args
    }
}

impl ReprovisionArgs {
    /// Whether these options are what `tokens` set (last occurrence of a key wins, an
    /// empty value reads as absent).
    pub open spec fn parsed_from(self, tokens: Seq<Seq<char>>) -> bool {
        &&& opt_view(self.backend_host) == last_value(tokens, "backend-host"@, tokens.len() as int)
        &&& opt_view(self.mqtt_broker_host) == last_value(
            tokens,
            "mqtt-broker-host"@,
            tokens.len() as int,
        )
    }

    /// Read the reprovisioning options; the first token is skipped and tokens without
    /// `=` or with an unknown key are ignored.
    pub fn parse(inputs: &[String]) -> (r: Self)
        ensures
            r.parsed_from(token_views(inputs@)),
    {
        let ghost tokens = token_views(inputs@);
        let mut args = ReprovisionArgs { backend_host: None, mqtt_broker_host: None };
        let n = inputs.len();
        if n == 0 {
            return args;
        }
        let mut i: usize = 1;
        while i < n
            invariant
                n == inputs@.len(),
                tokens == token_views(inputs@),
                1 <= i <= n,
                opt_view(args.backend_host) == last_value(tokens, "backend-host"@, i as int),
                opt_view(args.mqtt_broker_host) == last_value(
                    tokens,
                    "mqtt-broker-host"@,
                    i as int,
                ),
            decreases n - i,
        {
            let token = inputs[i].as_str();
            assert(token@ == tokens[i as int]);
            if let Some(v) = key_value_of(token, "backend-host") {
                args.backend_host = v;
            }
            if let Some(v) = key_value_of(token, "mqtt-broker-host") {
                args.mqtt_broker_host = v;
            }
            i = i + 1;
        }
        args
    }
}

impl Args {
    /// Read the command line: `version`, `provision` and `reprovision` (with any leading
    /// dashes) select the modes; each mode's options are read from all tokens.
    pub fn parse(inputs: &[String]) -> (r: Self)
        ensures
            r.display_version == has_flag(token_views(inputs@), "version"@, inputs@.len() as int),
            r.provision_args is Some == has_flag(
                token_views(inputs@),
                "provision"@,
                inputs@.len() as int,
            ),
            r.provision_args matches Some(pa) ==> pa.parsed_from(token_views(inputs@)),
            r.reprovision_args is Some == has_flag(
                token_views(inputs@),
                "reprovision"@,
                inputs@.len() as int,
            ),
            r.reprovision_args matches Some(ra) ==> ra.parsed_from(token_views(inputs@)),
    {
        let ghost tokens = token_views(inputs@);
        let mut args = Args { display_version: false, provision_args: None, reprovision_args: None };
        let n = inputs.len();
        if n == 0 {
            return args;
        }
        let mut i: usize = 1;
        while i < n
            invariant
                n == inputs@.len(),
                tokens == token_views(inputs@),
                1 <= i <= n,
                args.display_version == has_flag(tokens, "version"@, i as int),
                args.provision_args is Some == has_flag(tokens, "provision"@, i as int),
                args.provision_args matches Some(pa) ==> pa.parsed_from(tokens),
                args.reprovision_args is Some == has_flag(tokens, "reprovision"@, i as int),
                args.reprovision_args matches Some(ra) ==> ra.parsed_from(tokens),
            decreases n - i,
        {
            let token = inputs[i].as_str();
            assert(token@ == tokens[i as int]);
            if is_flag(token, "version") {
                args.display_version = true;
            }
            if is_flag(token, "provision") {
                args.provision_args = Some(ProvisionArgs::parse(inputs));
            }
            if is_flag(token, "reprovision") {
                args.reprovision_args = Some(ReprovisionArgs::parse(inputs));
            }
            i = i + 1;
        }
        args
    }
}

} // verus!
