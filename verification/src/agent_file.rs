//! The agent file format: its version check and the naming and listing of
//! checkpoints. Reading and writing files is left to the caller.
use vstd::prelude::*;
use crate::error::Error;
use crate::text::{
    ends_with, ends_with_chars, lex_le, lowercase, owned, push_str, replace_all, replace_chars,
    sort_strings, starts_with, starts_with_chars, str_eq, string_from_chars, to_chars, to_lowercase,
};
use crate::types::{parse_uuid, uuid_parse, AgentId};

verus! {

/// Version of the agent file format.
pub const AGENT_FILE_VERSION: &'static str = "1.0.0";

/// Accepts files of the current format version only.
pub fn check_version(version: &str) -> (r: Result<(), Error>)
    ensures
        version@ == "1.0.0"@ ==> r is Ok,
        version@ != "1.0.0"@ ==> (r matches Err(Error::Config(m)) && m@
            == "Incompatible agent file version: expected 1.0.0, got "@ + version@),
{
    if str_eq(version, "1.0.0") {
        Ok(())
    } else {
        let mut m = owned("Incompatible agent file version: expected 1.0.0, got ");
        push_str(&mut m, version);
        Err(Error::Config(m))
    }
}

/// Reads the agent id stored in a file.
pub fn parse_agent_id(text: &str) -> (r: Result<AgentId, Error>)
    ensures
        match uuid_parse(text@) {
            Ok(v) => r == Ok::<AgentId, Error>(AgentId(v)),
            Err(e) => r matches Err(Error::Config(m)) && m@ == "Invalid agent ID: "@ + e,
        },
{
    match parse_uuid(text) {
        Ok(v) => Ok(AgentId(v)),
        Err(e) => {
            let mut m = owned("Invalid agent ID: ");
            push_str(&mut m, e.as_str());
            Err(Error::Config(m))
        },
    }
}

/// The name under which an agent's checkpoints are filed: spaces become
/// underscores, then lower case.
pub open spec fn file_stem(agent_name: Seq<char>) -> Seq<char> {
    lowercase(replace_all(agent_name, " "@, "_"@))
}

/// Whether `name` is a checkpoint file of the agent.
pub open spec fn is_checkpoint_of(name: Seq<char>, agent_name: Seq<char>) -> bool {
    starts_with(name, file_stem(agent_name) + "_"@) && ends_with(name, ".af"@)
}

/// The checkpoint files of the agent among `names`, in order.
pub open spec fn checkpoints_among(names: Seq<Seq<char>>, agent_name: Seq<char>) -> Seq<Seq<char>>
    decreases names.len(),
{
    if names.len() == 0 {
        seq![]
    } else if is_checkpoint_of(names.last(), agent_name) {
        checkpoints_among(names.drop_last(), agent_name).push(names.last())
    } else {
        checkpoints_among(names.drop_last(), agent_name)
    }
}

fn stem(agent_name: &str) -> (s: String)
    ensures
        s@ == file_stem(agent_name@),
{
    let chars = to_chars(agent_name);
    let space = to_chars(" ");
    let under = to_chars("_");
    proof {
        reveal_strlit(" ");
        reveal_strlit("_");
    }
    let replaced = string_from_chars(replace_chars(chars.as_slice(), space.as_slice(), under.as_slice()).as_slice());
    to_lowercase(replaced.as_str())
}

/// Manages an agent's checkpoints in a directory.
#[derive(Debug, Clone)]
pub struct CheckpointManager {
    checkpoint_dir: String,
}

impl CheckpointManager {
    /// A manager for the checkpoints in `checkpoint_dir`.
    pub fn new(checkpoint_dir: String) -> (m: CheckpointManager)
        ensures
            m.dir_spec() == checkpoint_dir@,
    {
        CheckpointManager { checkpoint_dir }
    }

    /// The checkpoint directory.
    pub closed spec fn dir_spec(&self) -> Seq<char> {
        self.checkpoint_dir@
    }

    /// The checkpoint directory.
    pub fn checkpoint_dir(&self) -> (d: &str)
        ensures
            d@ == self.dir_spec(),
    {
        self.checkpoint_dir.as_str()
    }

    /// The file name of a checkpoint of `agent_name` taken at `stamp`.
    pub fn checkpoint_file_name(&self, agent_name: &str, stamp: &str) -> (f: String)
        ensures
            f@ == file_stem(agent_name@) + "_"@ + stamp@ + ".af"@,
    {
        let mut f = stem(agent_name);
        push_str(&mut f, "_");
        push_str(&mut f, stamp);
        push_str(&mut f, ".af");
        f
    }

    /// The checkpoint files of `agent_name` among the directory's entries,
    /// sorted.
    pub fn select_checkpoints(&self, agent_name: &str, entries: &Vec<String>) -> (r: Vec<String>)
        ensures
            r@.map_values(|s: String| s@) == checkpoints_among(
                entries@.map_values(|s: String| s@),
                agent_name@,
            ).sort_by(|a: Seq<char>, b: Seq<char>| lex_le(a, b)),
    {
        let ghost ev = entries@.map_values(|s: String| s@);
        let mut prefix = stem(agent_name);
        push_str(&mut prefix, "_");
        let pc = to_chars(prefix.as_str());
        let suffix = to_chars(".af");
        let mut picked: Vec<String> = Vec::new();
        let mut i: usize = 0;
        while i < entries.len()
            invariant
                i <= ev.len(),
                ev == entries@.map_values(|s: String| s@),
                pc@ == file_stem(agent_name@) + "_"@,
                suffix@ == ".af"@,
                picked@.map_values(|s: String| s@) == checkpoints_among(ev.take(i as int), agent_name@),
            decreases ev.len() - i,
        {
            assert(ev.take(i + 1).drop_last() =~= ev.take(i as int));
            assert(ev.take(i + 1).last() == entries@[i as int]@);
            let e = to_chars(entries[i].as_str());
            if starts_with_chars(e.as_slice(), pc.as_slice()) && ends_with_chars(e.as_slice(), suffix.as_slice()) {
                let ghost before = picked@.map_values(|s: String| s@);
                picked.push(entries[i].clone());
                assert(picked@.map_values(|s: String| s@) =~= before.push(ev[i as int]));
            }
            i = i + 1;
        }
        assert(ev.take(ev.len() as int) =~= ev);
        sort_strings(picked)
    }
}

} // verus!
