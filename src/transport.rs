//! The factory that picks a transport for a configuration.
use vstd::prelude::*;
use crate::models::{AdapterConfig, AdapterType};
use crate::mock::MockAdapter;
use crate::process::{config_env, configured_policy, pair_views, parse_env, parse_restart_policy, sanitized_env, ProcessAdapter};
use crate::terminal::ClaudeCodeAdapter;
use crate::webhook::WebhookAdapter;

verus! {

/// One of the four transports, all with the same contract towards the
/// supervisor.
#[derive(Debug, Clone)]
pub enum Adapter {
    ClaudeCode(ClaudeCodeAdapter),
    Process(ProcessAdapter),
    Webhook(WebhookAdapter),
    Mock(MockAdapter),
}

/// Whether `a` is a subprocess transport for `config` that runs `command`.
pub open spec fn is_process_for(a: Adapter, config: AdapterConfig, command: Seq<char>) -> bool {
    match a {
        Adapter::Process(p) => {
            &&& p.command@ == command
            &&& pair_views(p.env@) == sanitized_env(config_env(config))
            &&& p.restart_policy == configured_policy(config)
        },
        _ => false,
    }
}

/// The command a Codex configuration runs: its own when set and not empty.
pub open spec fn codex_command(config: AdapterConfig) -> Seq<char> {
    match config.command {
        Some(c) if c@.len() > 0 => c@,
        _ => "codex"@,
    }
}

/// The binary of the terminal agent: the configured one, else the default.
pub open spec fn terminal_binary(config: AdapterConfig, default_binary: Seq<char>) -> Seq<char> {
    match config.endpoint {
        Some(e) => e@,
        None => default_binary,
    }
}

impl ProcessAdapter {
    /// A subprocess transport for `config` that runs `command`.
    pub fn with_command(config: &AdapterConfig, command: String) -> (r: ProcessAdapter)
        ensures
            is_process_for(Adapter::Process(r), *config, command@),
    {
        ProcessAdapter {
            command,
            env: parse_env(config),
            restart_policy: parse_restart_policy(config),
        }
    }
}

/// The transport for a configuration. Codex runs as a subprocess; the
/// terminal agent runs in a multiplexer session when one is available and as
/// a subprocess otherwise (running `default_binary` unless the configuration
/// names one); transports without an implementation get the mock.
pub fn create_adapter(config: &AdapterConfig, multiplexer_available: bool, default_binary: &str) -> (a: Adapter)
    ensures
        config.adapter_type == AdapterType::Codex ==> is_process_for(a, *config, codex_command(*config)),
        config.adapter_type == AdapterType::ClaudeCode && multiplexer_available ==> a is ClaudeCode && {
            let c = a->ClaudeCode_0;
            &&& c.session_prefix@ == match config.session_name { Some(s) => s@, None => "kb"@ }
            &&& c.working_directory == config.command
            &&& c.claude_command@ == terminal_binary(*config, default_binary@)
        },
        config.adapter_type == AdapterType::ClaudeCode && !multiplexer_available
            ==> is_process_for(a, *config, terminal_binary(*config, default_binary@)),
        config.adapter_type == AdapterType::Process ==> is_process_for(a, *config, match config.command {
            Some(c) => c@,
            None => Seq::empty(),
        }),
        config.adapter_type == AdapterType::HttpWebhook ==> a is Webhook
            && a->Webhook_0.endpoint@ == match config.endpoint {
                Some(e) => e@,
                None => crate::webhook::default_endpoint(),
            },
        config.adapter_type == AdapterType::Mock || config.adapter_type == AdapterType::Tmux ==> a is Mock,
{
    match config.adapter_type {
        AdapterType::Codex => {
            let command = match &config.command {
                Some(c) => if c.unicode_len() > 0 { c.clone() } else { String::from_str("codex") },
                None => String::from_str("codex"),
            };
            Adapter::Process(ProcessAdapter::with_command(config, command))
        },
        AdapterType::ClaudeCode => {
            if multiplexer_available {
                Adapter::ClaudeCode(ClaudeCodeAdapter::new(config, default_binary))
            } else {
                let command = match &config.endpoint {
                    Some(e) => e.clone(),
                    None => String::from_str(default_binary),
                };
                Adapter::Process(ProcessAdapter::with_command(config, command))
            }
        },
        AdapterType::Process => Adapter::Process(ProcessAdapter::new(config)),
        AdapterType::HttpWebhook => Adapter::Webhook(WebhookAdapter::new(config)),
        AdapterType::Mock | AdapterType::Tmux => Adapter::Mock(MockAdapter::new()),
    }
}

} // verus!
