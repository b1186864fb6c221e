//! Command-line options and the choices `main` makes from them.
use vstd::prelude::*;
use crate::config::{config_file_path, get_config_dir};
use crate::paths::joined;
use crate::text::contains_text;

verus! {

broadcast use vstd::string::group_string_axioms;

/// What the program is asked to run.
#[derive(Debug, Clone, Copy, PartialEq, Eq, Structural)]
pub enum Commands {
    Server,
    Daemon,
    Sync,
}

/// The parsed command line.
#[derive(Debug, Clone)]
pub struct Cli {
    pub config: Option<String>,
    pub port: Option<u16>,
    pub host: Option<String>,
    pub command: Option<Commands>,
}

impl Cli {
    /// The command to run: the one given, else the server.
    pub fn command_to_run(&self) -> (r: Commands)
        ensures
            r == match self.command {
                Some(c) => c,
                None => Commands::Server,
            },
    {
        match self.command {
            Some(c) => c,
            None => Commands::Server,
        }
    }

    /// The configuration file to load: the one given with `--config`, else
    /// `config.toml` in the application's configuration directory.
    pub fn config_path(&self) -> (r: String)
        ensures
            match self.config {
                Some(p) => r@ == p@,
                None => exists|d: Seq<char>|
                    d.len() > 0 && (d == "/config"@ || contains_text(d, "akcloud"@)) && r@ == joined(
                        d,
                        "config.toml"@,
                    ),
            },
    {
        match &self.config {
            Some(p) => p.clone(),
            None => {
                let dir = get_config_dir();
                let r = config_file_path(None, dir.as_str());
                assert(dir@.len() > 0 && (dir@ == "/config"@ || contains_text(dir@, "akcloud"@)) && r@
                    == joined(dir@, "config.toml"@));
                r
            },
        }
    }
}

/// Without `--config`, the configuration file is `config.toml` in the
/// configuration directory: `/config/config.toml` when the platform gives
/// no directory for the application, else a path whose directory names the
/// application `akcloud`; in particular it is never `config.toml` under the
/// data directory's fallback `/data`.
pub proof fn lemma_default_config_path(r: Seq<char>)
    requires
        exists|d: Seq<char>|
            d.len() > 0 && (d == "/config"@ || contains_text(d, "akcloud"@)) && r == joined(
                d,
                "config.toml"@,
            ),
    ensures
        r == "/config/config.toml"@ || contains_text(r, "akcloud"@),
        r != "/data/config.toml"@,
{
    reveal_strlit("/config");
    reveal_strlit("config.toml");
    reveal_strlit("/config/config.toml");
    reveal_strlit("/data/config.toml");
    reveal_strlit("akcloud");
    let d = choose|d: Seq<char>|
        d.len() > 0 && (d == "/config"@ || contains_text(d, "akcloud"@)) && r == joined(
            d,
            "config.toml"@,
        );
    let part = "config.toml"@;
    if d == "/config"@ {
        assert(r =~= "/config/config.toml"@);
        assert(r[1] != "/data/config.toml"@[1]);
    } else {
        let at = choose|at: int| crate::text::occurs_at(d, "akcloud"@, at);
        let rest = if d[d.len() - 1] != '/' { seq!['/'] + part } else { part };
        assert(r =~= d + rest);
        assert(r.subrange(at, at + 7) =~= d.subrange(at, at + 7));
        assert(crate::text::occurs_at(r, "akcloud"@, at));
        if r == "/data/config.toml"@ {
            assert(r.subrange(at, at + 7)[0] == 'a');
            assert(r.subrange(at, at + 7)[1] == 'k');
            assert(r[at] == 'a' && r[at + 1] == 'k');
        }
    }
}

} // verus!
