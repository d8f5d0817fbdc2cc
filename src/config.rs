use vstd::prelude::*;

use crate::signature::RemoteProcSignature;

verus! {

/// The listening port used when neither the command line nor the file names one.
pub const DEFAULT_PORT: u16 = 8070;

/// The dispatcher's wait, in milliseconds, when the file names none.
pub const DEFAULT_TIMEOUT_MS: u64 = 500;

/// The text of an optional string, as a sequence of characters.
pub open spec fn opt_text(o: Option<String>) -> Option<Seq<char>> {
    match o {
        Some(s) => Some(s@),
        None => None,
    }
}

/// The first of two optional values that is present.
pub open spec fn first_of<T>(a: Option<T>, b: Option<T>) -> Option<T> {
    match a {
        Some(x) => Some(x),
        None => b,
    }
}

/// An operator-declared entry point: `name` is the alias that the control
/// plane uses, `symbol` the export that it stands for.
#[derive(Debug, Clone)]
pub struct Identifier {
    pub name: String,
    pub symbol: String,
    pub signature: RemoteProcSignature,
}

impl View for Identifier {
    type V = (Seq<char>, Seq<char>, RemoteProcSignature);

    open spec fn view(&self) -> Self::V {
        (self.name@, self.symbol@, self.signature)
    }
}

/// One declared entry point as the configuration file writes it.
#[derive(Debug, Clone)]
pub struct PathEntry {
    pub name: String,
    pub symbol: Option<String>,
    pub signature: Option<String>,
}

impl View for PathEntry {
    type V = (Seq<char>, Option<Seq<char>>, Option<Seq<char>>);

    open spec fn view(&self) -> Self::V {
        (self.name@, opt_text(self.symbol), opt_text(self.signature))
    }
}

/// The values that the configuration file holds.
#[derive(Debug, Clone)]
pub struct FileConfig {
    pub target_name: Option<String>,
    pub payload_path: Option<String>,
    pub port: Option<u16>,
    pub timeout: Option<u64>,
    pub paths: Option<Vec<PathEntry>>,
}

/// The values given on the command line; each one overrides the file.
#[derive(Debug, Clone)]
pub struct CliOverrides {
    pub target_name: Option<String>,
    pub payload_path: Option<String>,
    pub port: Option<u16>,
    pub verbose: bool,
}

/// Why the options cannot be settled.
#[derive(Debug, Clone, Copy, PartialEq, Eq, Structural)]
pub enum ConfigError {
    MissingTargetName,
    MissingPayloadPath,
    /// The declaration at this position names no known calling contract.
    UnknownSignature(usize),
}

/// The settled options of one run.
#[derive(Clone, Debug)]
pub struct Options {
    pub target_name: String,
    pub payload_path: String,
    pub port: u16,
    pub timeout: u64,
    pub paths: Vec<Identifier>,
    pub is_verbose: bool,
}

/// The signature a declaration asks for: `signal` when it names none.
pub open spec fn declared_signature(tag: Option<Seq<char>>) -> Option<RemoteProcSignature> {
    match tag {
        None => Some(RemoteProcSignature::Signal),
        Some(t) => RemoteProcSignature::from_tag_spec(t),
    }
}

/// The identifier that a declaration stands for: the symbol defaults to the name.
pub open spec fn identifier_of(e: (Seq<char>, Option<Seq<char>>, Option<Seq<char>>)) -> (
    Seq<char>,
    Seq<char>,
    RemoteProcSignature,
) {
    (
        e.0,
        match e.1 {
            Some(s) => s,
            None => e.0,
        },
        declared_signature(e.2).unwrap(),
    )
}

/// The declarations of the file, empty where it has none.
pub open spec fn declared_entries(file: FileConfig) -> Seq<(Seq<char>, Option<Seq<char>>, Option<Seq<char>>)> {
    match file.paths {
        Some(v) => v@.map_values(|e: PathEntry| e@),
        None => Seq::empty(),
    }
}

pub open spec fn first_unknown_signature(
    entries: Seq<(Seq<char>, Option<Seq<char>>, Option<Seq<char>>)>,
    i: int,
) -> bool {
    &&& 0 <= i < entries.len()
    &&& declared_signature(entries[i].2) is None
    &&& forall|j: int| 0 <= j < i ==> declared_signature(#[trigger] entries[j].2) is Some
}

fn resolve_signature(tag: &Option<String>) -> (r: Option<RemoteProcSignature>)
    ensures
        r == declared_signature(opt_text(*tag)),
{
    match tag {
        None => Some(RemoteProcSignature::Signal),
        Some(t) => RemoteProcSignature::from_tag(t.as_str()),
    }
}

fn resolve_paths(entries: &Vec<PathEntry>) -> (r: Result<Vec<Identifier>, ConfigError>)
    ensures
        match r {
            Ok(ids) => {
                &&& forall|i: int|
                    0 <= i < entries@.len() ==> declared_signature(#[trigger] entries@[i]@.2) is Some
                &&& ids@.map_values(|x: Identifier| x@) == entries@.map_values(
                    |e: PathEntry| identifier_of(e@),
                )
            },
            Err(ConfigError::UnknownSignature(i)) => first_unknown_signature(
                entries@.map_values(|e: PathEntry| e@),
                i as int,
            ),
            Err(_) => false,
        },
{
    let ghost views = entries@.map_values(|e: PathEntry| e@);
    let mut ids: Vec<Identifier> = Vec::new();
    let mut i: usize = 0;
    while i < entries.len()
        invariant
            i <= entries@.len(),
            views == entries@.map_values(|e: PathEntry| e@),
            ids@.len() == i,
            forall|j: int| 0 <= j < i ==> declared_signature(#[trigger] views[j].2) is Some,
            forall|j: int| 0 <= j < i ==> #[trigger] ids@[j]@ == identifier_of(views[j]),
        decreases entries@.len() - i,
    {
        let e = &entries[i];
        let sig = resolve_signature(&e.signature);
        match sig {
            None => {
                assert(first_unknown_signature(views, i as int));
                return Err(ConfigError::UnknownSignature(i));
            },
            Some(signature) => {
                let symbol = match &e.symbol {
                    Some(s) => s.clone(),
                    None => e.name.clone(),
                };
                ids.push(Identifier { name: e.name.clone(), symbol, signature });
            },
        }
        i = i + 1;
    }
    assert forall|j: int| 0 <= j < entries@.len() implies declared_signature(
        #[trigger] entries@[j]@.2,
    ) is Some by {
        assert(views[j] == entries@[j]@);
    }
    assert(ids@.map_values(|x: Identifier| x@) =~= entries@.map_values(
        |e: PathEntry| identifier_of(e@),
    ));
    Ok(ids)
}

impl Options {
    /// Settles the options of a run from the command line and the file; a
    /// value on the command line wins over the file's.
    pub fn resolve(cli: CliOverrides, file: FileConfig) -> (r: Result<Options, ConfigError>)
        ensures
            cli.target_name is None && file.target_name is None ==> r == Err::<
                Options,
                ConfigError,
            >(ConfigError::MissingTargetName),
            (cli.target_name is Some || file.target_name is Some) && cli.payload_path is None
                && file.payload_path is None ==> r == Err::<Options, ConfigError>(
                ConfigError::MissingPayloadPath,
            ),
            match r {
                Ok(o) => {
                    &&& Some(o.target_name@) == first_of(
                        opt_text(cli.target_name),
                        opt_text(file.target_name),
                    )
                    &&& Some(o.payload_path@) == first_of(
                        opt_text(cli.payload_path),
                        opt_text(file.payload_path),
                    )
                    &&& o.port == first_of(cli.port, file.port).unwrap_or(DEFAULT_PORT)
                    &&& o.timeout == file.timeout.unwrap_or(DEFAULT_TIMEOUT_MS)
                    &&& o.is_verbose == cli.verbose
                    &&& forall|i: int|
                        0 <= i < declared_entries(file).len() ==> declared_signature(
                            #[trigger] declared_entries(file)[i].2,
                        ) is Some
                    &&& o.paths@.map_values(|x: Identifier| x@) == declared_entries(
                        file,
                    ).map_values(|e| identifier_of(e))
                },
                Err(ConfigError::UnknownSignature(i)) => {
                    &&& (cli.target_name is Some || file.target_name is Some)
                    &&& (cli.payload_path is Some || file.payload_path is Some)
                    &&& first_unknown_signature(declared_entries(file), i as int)
                },
                Err(_) => cli.target_name is None && file.target_name is None || cli.payload_path is None
                    && file.payload_path is None,
            },
    {
        let target_name = match cli.target_name {
            Some(t) => t,
            None => match file.target_name {
                Some(t) => t,
                None => return Err(ConfigError::MissingTargetName),
            },
        };
        let payload_path = match cli.payload_path {
            Some(p) => p,
            None => match file.payload_path {
                Some(p) => p,
                None => return Err(ConfigError::MissingPayloadPath),
            },
        };
        let port = match cli.port {
            Some(p) => p,
            None => match file.port {
                Some(p) => p,
                None => DEFAULT_PORT,
            },
        };
        let timeout = match file.timeout {
            Some(t) => t,
            None => DEFAULT_TIMEOUT_MS,
        };
        let paths = match &file.paths {
            Some(v) => {
                let r = resolve_paths(v);
                proof {
                    let views = v@.map_values(|e: PathEntry| e@);
                    assert(views =~= declared_entries(file));
                    assert(v@.map_values(|e: PathEntry| identifier_of(e@)) =~= views.map_values(
                        |e| identifier_of(e),
                    ));
                }
                match r {
                    Ok(ids) => ids,
                    Err(e) => return Err(e),
                }
            },
            None => {
                let ids: Vec<Identifier> = Vec::new();
                assert(ids@.map_values(|x: Identifier| x@) =~= declared_entries(file).map_values(
                    |e| identifier_of(e),
                ));
                ids
            },
        };
        Ok(Options { target_name, payload_path, port, timeout, paths, is_verbose: cli.verbose })
    }
}

} // verus!
