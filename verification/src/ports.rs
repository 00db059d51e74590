//! Freeing the ports that the processes listen on, before they start.
use vstd::prelude::*;
use crate::text;

verus! {

/// The ports given, in order, without the processes that name none.
pub open spec fn given_ports(ports: Seq<Option<u16>>) -> Seq<u16>
    decreases ports.len(),
{
    if ports.len() == 0 {
        Seq::empty()
    } else {
        given_ports(ports.drop_last()) + match ports.last() {
            Some(p) => seq![p],
            None => Seq::empty(),
        }
    }
}

/// The ports that freeing the processes' ports visits, in order: each port
/// that a process names, once per process.
pub fn kill_ports(ports: &Vec<Option<u16>>) -> (r: Vec<u16>)
    ensures
        r@ == given_ports(ports@),
{
    let mut out: Vec<u16> = Vec::new();
    let mut i: usize = 0;
    assert(ports@.take(0) =~= Seq::<Option<u16>>::empty());
    while i < ports.len()
        invariant
            i <= ports.len(),
            out@ == given_ports(ports@.take(i as int)),
        decreases ports.len() - i,
    {
        assert(ports@.take(i + 1).drop_last() =~= ports@.take(i as int));
        assert(ports@.take(i + 1).last() == ports@[i as int]);
        match ports[i] {
            Some(p) => {
                out.push(p);
            },
            None => {},
        }
        assert(out@ =~= given_ports(ports@.take(i + 1)));
        i = i + 1;
    }
    assert(ports@.take(i as int) =~= ports@);
    out
}

/// A command to run: program and arguments.
pub struct Command {
    pub program: String,
    pub args: Vec<String>,
}

pub open spec fn command_view(c: Command) -> (Seq<char>, Seq<Seq<char>>) {
    (c.program@, text::views(c.args@))
}

/// The command that lists what holds a port: `lsof -ti:PORT` on Unix,
/// `netstat -ano` on Windows.
pub open spec fn port_query(port: u16, windows: bool) -> (Seq<char>, Seq<Seq<char>>) {
    if windows {
        ("netstat"@, seq!["-ano"@])
    } else {
        ("lsof"@, seq!["-ti:"@ + text::decimal(port as nat)])
    }
}

pub fn port_query_command(port: u16, windows: bool) -> (c: Command)
    ensures
        command_view(c) == port_query(port, windows),
{
    let mut args: Vec<String> = Vec::new();
    if windows {
        args.push(String::from_str("-ano"));
        assert(text::views(args@) =~= seq!["-ano"@]);
        Command { program: String::from_str("netstat"), args }
    } else {
        args.push(String::from_str("-ti:").concat(text::decimal_string(port as u64).as_str()));
        assert(text::views(args@) =~= seq!["-ti:"@ + text::decimal(port as nat)]);
        Command { program: String::from_str("lsof"), args }
    }
}

/// The command that stops a process: `kill -9 PID` on Unix,
/// `taskkill /PID PID /F` on Windows.
pub open spec fn kill_for(pid: Seq<char>, windows: bool) -> (Seq<char>, Seq<Seq<char>>) {
    if windows {
        ("taskkill"@, seq!["/PID"@, pid, "/F"@])
    } else {
        ("kill"@, seq!["-9"@, pid])
    }
}

pub fn kill_command(pid: &str, windows: bool) -> (c: Command)
    ensures
        command_view(c) == kill_for(pid@, windows),
{
    let mut args: Vec<String> = Vec::new();
    if windows {
        args.push(String::from_str("/PID"));
        args.push(String::from_str(pid));
        args.push(String::from_str("/F"));
        assert(text::views(args@) =~= seq!["/PID"@, pid@, "/F"@]);
        Command { program: String::from_str("taskkill"), args }
    } else {
        args.push(String::from_str("-9"));
        args.push(String::from_str(pid));
        assert(text::views(args@) =~= seq!["-9"@, pid@]);
        Command { program: String::from_str("kill"), args }
    }
}

/// The process ids that `lsof -t` printed: its non-blank lines, trimmed.
pub open spec fn lsof_pids(lines: Seq<Seq<char>>) -> Seq<Seq<char>>
    decreases lines.len(),
{
    if lines.len() == 0 {
        Seq::empty()
    } else {
        lsof_pids(lines.drop_last()) + if text::trim(lines.last()).len() > 0 {
            seq![text::trim(lines.last())]
        } else {
            Seq::empty()
        }
    }
}

/// The process ids holding `port` that `netstat -ano` printed: of each line
/// that says `LISTENING` and whose local address (its second field, after
/// the protocol) ends in `:PORT`, the last field.
pub open spec fn netstat_pids(lines: Seq<Seq<char>>, port: u16) -> Seq<Seq<char>>
    decreases lines.len(),
{
    if lines.len() == 0 {
        Seq::empty()
    } else {
        let l = lines.last();
        let w = text::words(l);
        netstat_pids(lines.drop_last(), port) + if text::contains(l, "LISTENING"@) && w.len() > 1
            && text::ends_with(w[1], ":"@ + text::decimal(port as nat)) {
            seq![w.last()]
        } else {
            Seq::empty()
        }
    }
}

/// The process ids to stop, from the output of the port query.
pub open spec fn pids_in(output: Seq<char>, port: u16, windows: bool) -> Seq<Seq<char>> {
    if windows {
        netstat_pids(text::lines(output), port)
    } else {
        lsof_pids(text::lines(output))
    }
}

pub fn pids_to_kill(output: &str, port: u16, windows: bool) -> (r: Vec<String>)
    ensures
        text::views(r@) == pids_in(output@, port, windows),
{
    let ls = text::lines_of(output);
    let ghost lv = text::views(ls@);
    let needle = String::from_str(":").concat(text::decimal_string(port as u64).as_str());
    let mut out: Vec<String> = Vec::new();
    let mut i: usize = 0;
    assert(lv.take(0) =~= Seq::<Seq<char>>::empty());
    assert(text::views(out@) =~= Seq::<Seq<char>>::empty());
    while i < ls.len()
        invariant
            i <= ls.len(),
            lv == text::views(ls@),
            needle@ == ":"@ + text::decimal(port as nat),
            text::views(out@) == if windows {
                netstat_pids(lv.take(i as int), port)
            } else {
                lsof_pids(lv.take(i as int))
            },
        decreases ls.len() - i,
    {
        let ghost before = text::views(out@);
        let line = &ls[i];
        assert(lv.take(i + 1).drop_last() =~= lv.take(i as int));
        assert(lv.take(i + 1).last() == line@);
        if windows {
            if text::contains_str(line.as_str(), "LISTENING") {
                let w = text::split_whitespace(line.as_str());
                if w.len() > 1 && text::ends_with_str(w[1].as_str(), needle.as_str()) {
                    out.push(w[w.len() - 1].clone());
                    assert(text::views(w@)[1] == w@[1]@);
                    assert(text::views(w@).last() == w@[w.len() - 1]@);
                    assert(text::views(out@) =~= before.push(w@[w.len() - 1]@));
                } else {
                    assert(w.len() > 1 ==> text::views(w@)[1] == w@[1]@);
                }
            }
        } else {
            let t = text::trim_str(line.as_str());
            if !text::is_empty(t.as_str()) {
                out.push(t);
                assert(text::views(out@) =~= before.push(text::trim(line@)));
            }
        }
        i = i + 1;
    }
    assert(lv.take(i as int) =~= lv);
    out
}

/// What freeing `port` does, given what the port query printed: for each
/// process id found in it, in the order found, the id and the command that
/// stops that process.
pub fn kill_port(port: u16, windows: bool, listing: &str) -> (r: Vec<(String, Command)>)
    ensures
        r.len() == pids_in(listing@, port, windows).len(),
        forall|i: int|
            #![trigger r@[i]]
            0 <= i < r.len() ==> r@[i].0@ == pids_in(listing@, port, windows)[i] && command_view(
                r@[i].1,
            ) == kill_for(pids_in(listing@, port, windows)[i], windows),
{
    let pids = pids_to_kill(listing, port, windows);
    let ghost pv = text::views(pids@);
    let mut out: Vec<(String, Command)> = Vec::new();
    let mut i: usize = 0;
    while i < pids.len()
        invariant
            i <= pids.len(),
            pv == text::views(pids@),
            pv == pids_in(listing@, port, windows),
            out.len() == i,
            forall|j: int|
                #![trigger out@[j]]
                0 <= j < i ==> out@[j].0@ == pv[j] && command_view(out@[j].1) == kill_for(
                    pv[j],
                    windows,
                ),
        decreases pids.len() - i,
    {
        assert(pv[i as int] == pids@[i as int]@);
        let stop = kill_command(pids[i].as_str(), windows);
        out.push((pids[i].clone(), stop));
        i = i + 1;
    }
    out
}

/// The line printed for each stopped process.
pub fn freed_line(port: u16, pid: &str) -> (r: String)
    ensures
        r@ == "Freed port "@ + text::decimal(port as nat) + " (killed stale PID "@ + pid@ + ")"@,
{
    String::from_str("Freed port ").concat(text::decimal_string(port as u64).as_str()).concat(
        " (killed stale PID ",
    ).concat(pid).concat(")")
}

} // verus!
