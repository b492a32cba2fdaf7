//! Settings, and what the command line asks for.

use vstd::prelude::*;

verus! {

/// The settings of the load generator.
#[derive(Clone, Copy, Debug, PartialEq, Eq, Structural)]
pub struct BenchConfig {
    pub num_rounds: usize,
    pub num_threads: usize,
    pub num_connect_requests: usize,
    pub num_announce_requests: usize,
    pub num_scrape_requests: usize,
    pub num_hashes_per_scrape_request: usize,
}

impl Default for BenchConfig {
    /// Ten rounds on two threads, of five million connect requests and two
    /// million announces and scrapes each, with twenty hashes to a scrape.
    fn default() -> (config: Self)
        ensures
            config == (BenchConfig {
                num_rounds: 10,
                num_threads: 2,
                num_connect_requests: 5_000_000,
                num_announce_requests: 2_000_000,
                num_scrape_requests: 2_000_000,
                num_hashes_per_scrape_request: 20,
            }),
    {
        BenchConfig {
            num_rounds: 10,
            num_threads: 2,
            num_connect_requests: 5_000_000,
            num_announce_requests: 2_000_000,
            num_scrape_requests: 2_000_000,
            num_hashes_per_scrape_request: 20,
        }
    }
}

/// What was given on the command line.
#[derive(Clone, Debug)]
pub struct AppOptions {
    /// The path of a config file to run with.
    pub config_file: Option<String>,
    /// Whether to print the default config file.
    pub print_config: bool,
    /// Whether to print the help message.
    pub help: bool,
}

/// What a program does once its command line is read.
#[derive(Debug)]
pub enum CliAction {
    /// Print the help message, after the error where there is one.
    PrintHelp(Option<String>),
    /// Print the default config file.
    PrintDefaultConfig,
    /// Run with the settings in the file at this path.
    RunWithConfigFile(String),
    /// Run with the default settings.
    RunWithDefaultConfig,
}

/// Decides what a program does once its command line is read: where the
/// arguments were not understood, help with the error; else help where it is
/// asked for; else the default config where that is asked for; else a run
/// with the config file named, or with the defaults where none is.
pub fn decide_cli_action(parsed: Result<AppOptions, String>) -> (action: CliAction)
    ensures
        match parsed {
            Err(error) => action == CliAction::PrintHelp(Some(error)),
            Ok(options) => if options.help {
                action == CliAction::PrintHelp(None)
            } else if options.print_config {
                action == CliAction::PrintDefaultConfig
            } else {
                match options.config_file {
                    Some(path) => action == CliAction::RunWithConfigFile(path),
                    None => action == CliAction::RunWithDefaultConfig,
                }
            },
        },
{
    match parsed {
        Ok(options) => {
            if options.help {
                CliAction::PrintHelp(None)
            } else if options.print_config {
                CliAction::PrintDefaultConfig
            } else {
                match options.config_file {
                    Some(config_file) => CliAction::RunWithConfigFile(config_file),
                    None => CliAction::RunWithDefaultConfig,
                }
            }
        },
        Err(error) => CliAction::PrintHelp(Some(error)),
    }
}

} // verus!
