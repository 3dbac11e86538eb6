//! How the bridge starts, and what it keeps on disk while it runs.
use crate::config::Config;
use crate::group_log;
use crate::text::number;
use vstd::prelude::*;
use vstd::string::*;

verus! {

/// The size from which on a log file is rotated, in bytes.
pub const LOG_ROTATE_BYTES: u64 = 10_485_760;

/// How many old log files are kept.
pub const LOG_BACKUP_COUNT: u8 = 3;

/// How the bridge is run.
#[derive(Clone, Copy)]
pub struct BridgeRunOptions {
    pub debugger_mode: bool,
    pub write_pid_file: bool,
}

impl Default for BridgeRunOptions {
    fn default() -> (r: Self)
        ensures
            !r.debugger_mode,
            r.write_pid_file,
    {
        BridgeRunOptions { debugger_mode: false, write_pid_file: true }
    }
}

/// The file by which the process of the bridge is found. `home` is the home directory.
pub fn pid_file_path(home: &str) -> (r: String)
    ensures
        r@ == group_log::path_below(home@, ".config/alma/bridge/bridge.pid"@),
{
    group_log::join_path(home, ".config/alma/bridge/bridge.pid")
}

/// What is said where the port cannot be had.
pub fn listen_error(port: u16, error: &str) -> (r: String)
    ensures
        r@ == "Cannot listen on 0.0.0.0:"@ + number::dec_nat(port as nat) + ": "@ + error@
            + ". Stop the existing bridge or change bridge.port in config.toml."@,
{
    "Cannot listen on 0.0.0.0:".to_owned().concat(&number::dec_u64(port as u64)).concat(
        ": ",
    ).concat(error).concat(". Stop the existing bridge or change bridge.port in config.toml.")
}

/// What is said where the database cannot be opened.
pub fn database_error(error: &str) -> (r: String)
    ensures
        r@ == "Failed to initialize state database: "@ + error@
            + ". If another bridge/debugger is running, change database.path in config.toml or stop the existing process."@,
{
    "Failed to initialize state database: ".to_owned().concat(error).concat(
        ". If another bridge/debugger is running, change database.path in config.toml or stop the existing process.",
    )
}

/// Sets the bridge up to be debugged: with a database of its own, and on another port where one
/// is free. `pid` is the number of the process.
pub fn apply_debugger_defaults(config: &mut Config, temp_dir: &str, pid: u32, port: Option<u16>)
    ensures
        final(config).db_path@ == group_log::path_below(
            temp_dir@,
            "alma-onebot-bridge-debugger-"@ + number::dec_nat(pid as nat) + ".db"@,
        ),
        final(config).bridge_port == (match port {
            Some(p) => p,
            None => old(config).bridge_port,
        }),
        *final(config) == (Config {
            db_path: final(config).db_path,
            bridge_port: final(config).bridge_port,
            ..*old(config)
        }),
{
    let name = "alma-onebot-bridge-debugger-".to_owned().concat(
        &number::dec_u64(pid as u64),
    ).concat(".db");
    config.db_path = group_log::join_path(temp_dir, &name);
    if let Some(p) = port {
        config.bridge_port = p;
    }
}

/// The port that is tried next, after `tried` ports from `start` on were not free. There are no
/// more than `attempts` tries.
pub fn first_available_port(start: u16, attempts: u16, tried: u16) -> (r: Option<u16>)
    ensures
        r == (if tried < attempts && start + tried <= u16::MAX {
            Some((start + tried) as u16)
        } else {
            None
        }),
{
    if tried < attempts {
        start.checked_add(tried)
    } else {
        None
    }
}

/// The name of an old log file.
pub open spec fn rotated_name(file_name: Seq<char>, index: u8) -> Seq<char> {
    file_name + "."@ + number::dec_nat(index as nat)
}

/// The name of an old log file: the greater the index, the older it is.
pub fn rotated_log_path(file_name: &str, index: u8) -> (r: String)
    ensures
        r@ == rotated_name(file_name@, index),
{
    file_name.to_owned().concat(".").concat(&number::dec_u64(index as u64))
}

/// A step of a rotation. The log file itself has the index 0, and an old one its own.
#[derive(Clone, Copy, PartialEq, Eq, Structural)]
pub enum LogStep {
    Remove(u8),
    Rename(u8, u8),
}

/// The steps that give each old file, from the one at `last` to the first, the next index.
pub open spec fn shift_steps(there: Seq<bool>, last: nat) -> Seq<LogStep>
    decreases last,
{
    if last == 0 {
        seq![]
    } else {
        (if there[last as int] {
            seq![LogStep::Rename(last as u8, (last + 1) as u8)]
        } else {
            seq![]
        }) + shift_steps(there, (last - 1) as nat)
    }
}

/// The steps of a rotation. `there` tells for each index whether there is such a file.
pub open spec fn rotation(there: Seq<bool>, backups: u8) -> Seq<LogStep> {
    if backups == 0 {
        seq![LogStep::Remove(0)]
    } else {
        (if there[backups as int] {
            seq![LogStep::Remove(backups)]
        } else {
            seq![]
        }) + shift_steps(there, (backups - 1) as nat) + seq![LogStep::Rename(0, 1)]
    }
}

/// The steps by which a log file is rotated, if it has grown too large. `size` is its size, if
/// it exists, and `there` tells for each index up to `backups` whether there is such a file.
pub fn rotate_log_file_if_needed(size: Option<u64>, max_bytes: u64, backups: u8, there: &Vec<bool>) -> (r:
    Option<Vec<LogStep>>)
    requires
        there@.len() == backups + 1,
    ensures
        match r {
            Some(steps) => size matches Some(n) && n > max_bytes && steps@ == rotation(
                there@,
                backups,
            ),
            None => !(size matches Some(n) && n > max_bytes),
        },
{
    let too_large = match size {
        Some(n) => n > max_bytes,
        None => false,
    };
    if !too_large {
        return None;
    }
    let mut steps: Vec<LogStep> = Vec::new();
    if backups == 0 {
        steps.push(LogStep::Remove(0));
        assert(steps@ =~= rotation(there@, backups));
        return Some(steps);
    }
    if there[backups as usize] {
        steps.push(LogStep::Remove(backups));
    }
    let ghost head = steps@;
    let mut i: u8 = backups - 1;
    assert(head + shift_steps(there@, i as nat) =~= steps@ + shift_steps(there@, i as nat));
    while i > 0
        invariant
            there@.len() == backups + 1,
            i < backups,
            head + shift_steps(there@, (backups - 1) as nat) == steps@ + shift_steps(
                there@,
                i as nat,
            ),
        decreases i,
    {
        let ghost before = steps@;
        if there[i as usize] {
            steps.push(LogStep::Rename(i, i + 1));
        }
        proof {
            let rest = shift_steps(there@, (i - 1) as nat);
            assert(before + shift_steps(there@, i as nat) =~= steps@ + rest);
        }
        i -= 1;
    }
    assert(shift_steps(there@, 0) =~= seq![]);
    assert(steps@ + shift_steps(there@, 0) =~= steps@);
    steps.push(LogStep::Rename(0, 1));
    assert(steps@ =~= rotation(there@, backups));
    Some(steps)
}

/// The files after a step. A step for a file that is not there does nothing.
pub open spec fn stepped<C>(files: Map<int, C>, step: LogStep) -> Map<int, C> {
    match step {
        LogStep::Remove(i) => files.remove(i as int),
        LogStep::Rename(i, j) => if files.dom().contains(i as int) {
            files.remove(i as int).insert(j as int, files[i as int])
        } else {
            files
        },
    }
}

/// The files after steps, one after the other.
pub open spec fn all_stepped<C>(files: Map<int, C>, steps: Seq<LogStep>) -> Map<int, C>
    decreases steps.len(),
{
    if steps.len() == 0 {
        files
    } else {
        all_stepped(stepped(files, steps[0]), steps.skip(1))
    }
}

/// Whether it is told for each index whether there is a file.
pub open spec fn is_told<C>(files: Map<int, C>, there: Seq<bool>) -> bool {
    forall|i: int| 0 <= i < there.len() ==> #[trigger] there[i] == files.dom().contains(i)
}

proof fn lemma_all_stepped_add<C>(files: Map<int, C>, a: Seq<LogStep>, b: Seq<LogStep>)
    ensures
        all_stepped(files, a + b) == all_stepped(all_stepped(files, a), b),
    decreases a.len(),
{
    if a.len() == 0 {
        assert(a + b =~= b);
    } else {
        assert((a + b)[0] == a[0]);
        assert((a + b).skip(1) =~= a.skip(1) + b);
        lemma_all_stepped_add(stepped(files, a[0]), a.skip(1), b);
    }
}

/// The files with those at 1 to `last` moved on by one.
spec fn moved_on<C>(files: Map<int, C>, last: int) -> Map<int, C> {
    Map::new(
        |i: int|
            if 2 <= i <= last + 1 {
                files.dom().contains(i - 1)
            } else {
                i != 1 && files.dom().contains(i)
            },
        |i: int|
            if 2 <= i <= last + 1 {
                files[i - 1]
            } else {
                files[i]
            },
    )
}

proof fn lemma_shift<C>(files: Map<int, C>, there: Seq<bool>, last: nat)
    requires
        1 <= last < 255,
        last < there.len(),
        forall|i: int| 1 <= i <= last ==> #[trigger] there[i] == files.dom().contains(i),
        !files.dom().contains(last as int + 1),
    ensures
        all_stepped(files, shift_steps(there, last)) == moved_on(files, last as int),
    decreases last,
{
    let rest = shift_steps(there, (last - 1) as nat);
    let next = if there[last as int] {
        stepped(files, LogStep::Rename(last as u8, (last + 1) as u8))
    } else {
        files
    };
    if there[last as int] {
        let first = seq![LogStep::Rename(last as u8, (last + 1) as u8)];
        assert((first + rest)[0] == first[0]);
        assert((first + rest).skip(1) =~= rest);
    } else {
        assert(Seq::<LogStep>::empty() + rest =~= rest);
    }
    assert(all_stepped(files, shift_steps(there, last)) == all_stepped(next, rest));
    if last == 1 {
        assert(rest =~= seq![]);
        assert(next =~= moved_on(files, 1));
    } else {
        lemma_shift(next, there, (last - 1) as nat);
        assert(moved_on(next, last - 1) =~= moved_on(files, last as int));
    }
}

/// A rotation makes the log file the newest of the old ones, makes each old one older, and loses
/// none but the oldest.
pub proof fn law_rotation_keeps_the_newest<C>(files: Map<int, C>, there: Seq<bool>, backups: u8)
    requires
        1 <= backups,
        there.len() == backups + 1,
        is_told(files, there),
        files.dom().contains(0),
    ensures
        ({
            let after = all_stepped(files, rotation(there, backups));
            &&& !after.dom().contains(0)
            &&& after.dom().contains(1)
            &&& after[1] == files[0]
            &&& forall|i: int|
                2 <= i <= backups ==> (#[trigger] after.dom().contains(i)
                    == files.dom().contains(i - 1))
            &&& forall|i: int|
                2 <= i <= backups && files.dom().contains(i - 1) ==> #[trigger] after[i]
                    == files[i - 1]
        }),
{
    let oldest = if there[backups as int] {
        seq![LogStep::Remove(backups)]
    } else {
        seq![]
    };
    let shift = shift_steps(there, (backups - 1) as nat);
    let last = seq![LogStep::Rename(0, 1)];
    lemma_all_stepped_add(files, oldest + shift, last);
    lemma_all_stepped_add(files, oldest, shift);
    reveal_with_fuel(all_stepped, 2);
    let cleared = files.remove(backups as int);
    if there[backups as int] {
        assert(oldest.skip(1) =~= seq![]);
        assert(all_stepped(files, oldest) =~= cleared);
    } else {
        assert(!files.dom().contains(backups as int));
        assert(all_stepped(files, oldest) =~= cleared);
    }
    let moved = moved_on(cleared, backups - 1);
    if backups == 1 {
        assert(shift =~= seq![]);
        assert(all_stepped(cleared, shift) =~= moved);
    } else {
        lemma_shift(cleared, there, (backups - 1) as nat);
    }
    assert(last.skip(1) =~= seq![]);
    assert(all_stepped(moved, last) == stepped(moved, LogStep::Rename(0, 1)));
}

} // verus!
