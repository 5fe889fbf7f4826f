//! The positional arguments and the environment handed to every hook script
//! of one event.
use vstd::prelude::*;
use vstd::string::*;
use crate::event::LinkEvent;
use crate::resolver::views;
use crate::state::state_name;
use crate::text::{contains, contains_exec};

verus! {

/// Per-link detail from the link database.
#[derive(Clone, Debug)]
pub struct LinkStatus {
    pub admin_state: String,
    pub oper_state: String,
    /// IPv4 and IPv6 addresses with prefix length, e.g. `10.0.0.2/24`.
    pub addresses: Vec<String>,
    pub gateway: Vec<String>,
    pub dns: Vec<String>,
    pub domains: Vec<String>,
    pub routes: Vec<String>,
}

/// One link of a registry snapshot.
#[derive(Clone, Debug)]
pub struct LinkSnapshot {
    pub iface: String,
    pub status: LinkStatus,
}

/// The positional arguments of a script: the state, then the interface.
#[derive(Clone, Debug)]
pub struct Arguments {
    pub args: Vec<String>,
}

/// The complete environment of a script, as name and value pairs.
#[derive(Clone, Debug)]
pub struct Environments {
    pub vars: Vec<(String, String)>,
}

/// The search path given to scripts, which inherit no environment.
pub open spec fn default_path() -> Seq<char> {
    "/usr/local/sbin:/usr/local/bin:/usr/sbin:/usr/bin:/sbin:/bin"@
}

pub open spec fn hex_char(d: nat) -> char {
    "0123456789abcdef"@[d as int]
}

/// A character as it stands inside a JSON string.
pub open spec fn escape_char(c: char) -> Seq<char> {
    if c == '"' {
        seq!['\\', '"']
    } else if c == '\\' {
        seq!['\\', '\\']
    } else if (c as u32) < 32 {
        seq!['\\', 'u', '0', '0', hex_char((c as u32 / 16) as nat), hex_char((c as u32 % 16) as nat)]
    } else {
        seq![c]
    }
}

pub open spec fn escape_str(s: Seq<char>) -> Seq<char>
    decreases s.len(),
{
    if s.len() == 0 {
        Seq::empty()
    } else {
        escape_str(s.drop_last()) + escape_char(s.last())
    }
}

/// The items joined with `sep` between each two.
pub open spec fn joined(xs: Seq<Seq<char>>, sep: Seq<char>) -> Seq<char>
    decreases xs.len(),
{
    if xs.len() == 0 {
        Seq::empty()
    } else if xs.len() == 1 {
        xs[0]
    } else {
        joined(xs.drop_last(), sep) + sep + xs.last()
    }
}

pub open spec fn list_item(x: Seq<char>, json: bool) -> Seq<char> {
    if json {
        "\""@ + escape_str(x) + "\""@
    } else {
        x
    }
}

/// A list of values as one variable: a compact JSON array of strings, or the
/// values separated by spaces.
pub open spec fn encode_list(xs: Seq<Seq<char>>, json: bool) -> Seq<char> {
    if json {
        "["@ + joined(xs.map_values(|x: Seq<char>| list_item(x, true)), ","@) + "]"@
    } else {
        joined(xs, " "@)
    }
}

pub open spec fn is_ipv6(a: Seq<char>) -> bool {
    contains(a, ":"@)
}

/// The addresses of one family, in their order.
pub open spec fn family(xs: Seq<Seq<char>>, v6: bool) -> Seq<Seq<char>>
    decreases xs.len(),
{
    if xs.len() == 0 {
        Seq::empty()
    } else if is_ipv6(xs.last()) == v6 {
        family(xs.drop_last(), v6).push(xs.last())
    } else {
        family(xs.drop_last(), v6)
    }
}

pub open spec fn args_spec(ev: LinkEvent, link: LinkSnapshot) -> Seq<Seq<char>> {
    seq![state_name(ev.state), link.iface@]
}

/// The environment of the scripts of event `ev` on `link`.
pub open spec fn env_spec(ev: LinkEvent, link: LinkSnapshot, json: bool) -> Seq<(Seq<char>, Seq<char>)> {
    let st = link.status;
    seq![
        ("PATH"@, default_path()),
        ("STATE"@, state_name(ev.state)),
        ("IFACE"@, link.iface@),
        ("IP_ADDRS"@, encode_list(family(views(st.addresses@), false), json)),
        ("IP6_ADDRS"@, encode_list(family(views(st.addresses@), true), json)),
        ("GATEWAY"@, encode_list(views(st.gateway@), json)),
        ("DNS"@, encode_list(views(st.dns@), json)),
        ("DOMAINS"@, encode_list(views(st.domains@), json)),
        ("ROUTES"@, encode_list(views(st.routes@), json)),
        ("ADMIN_STATE"@, st.admin_state@),
        ("OPER_STATE"@, st.oper_state@),
    ] + if json {
        seq![("JSON"@, "1"@)]
    } else {
        Seq::empty()
    }
}

/// The names that every script's environment holds, in order; `JSON` only
/// where lists are written as JSON.
pub open spec fn env_keys(json: bool) -> Seq<Seq<char>> {
    seq![
        "PATH"@,
        "STATE"@,
        "IFACE"@,
        "IP_ADDRS"@,
        "IP6_ADDRS"@,
        "GATEWAY"@,
        "DNS"@,
        "DOMAINS"@,
        "ROUTES"@,
        "ADMIN_STATE"@,
        "OPER_STATE"@,
    ] + if json {
        seq!["JSON"@]
    } else {
        Seq::empty()
    }
}

/// Every environment holds every variable, whatever the link lacks: a
/// missing value is empty, never left out.
pub proof fn lemma_env_complete(ev: LinkEvent, link: LinkSnapshot, json: bool)
    ensures
        env_spec(ev, link, json).map_values(|p: (Seq<char>, Seq<char>)| p.0) == env_keys(json),
{
    assert(env_spec(ev, link, json).map_values(|p: (Seq<char>, Seq<char>)| p.0) =~= env_keys(json));
}

/// The interface and state in the arguments are those in the environment.
pub proof fn lemma_args_match_env(ev: LinkEvent, link: LinkSnapshot, json: bool)
    ensures
        args_spec(ev, link)[0] == env_spec(ev, link, json)[1].1,
        args_spec(ev, link)[1] == env_spec(ev, link, json)[2].1,
        env_spec(ev, link, json)[2].1 == link.iface@,
{
}

pub open spec fn pair_views(v: Seq<(String, String)>) -> Seq<(Seq<char>, Seq<char>)> {
    v.map_values(|p: (String, String)| (p.0@, p.1@))
}

/// Appends `s` to `out` as the inside of a JSON string.
pub fn push_escaped(out: &mut String, s: &str)
    ensures
        final(out)@ == old(out)@ + escape_str(s@),
{
    let n = s.unicode_len();
    let digits = "0123456789abcdef";
    proof {
        reveal_strlit("0123456789abcdef");
    }
    let mut i: usize = 0;
    assert(s@.subrange(0, 0) =~= Seq::<char>::empty());
    assert(out@ =~= old(out)@ + escape_str(s@.subrange(0, 0)));
    while i < n
        invariant
            n == s@.len(),
            i <= n,
            digits@ == "0123456789abcdef"@,
            digits@.len() == 16,
            out@ == old(out)@ + escape_str(s@.subrange(0, i as int)),
        decreases n - i,
    {
        let c = s.get_char(i);
        let ghost before = out@;
        if c == '"' {
            out.append("\\\"");
            proof {
                reveal_strlit("\\\"");
            }
        } else if c == '\\' {
            out.append("\\\\");
            proof {
                reveal_strlit("\\\\");
            }
        } else if (c as u32) < 32 {
            out.append("\\u00");
            proof {
                reveal_strlit("\\u00");
            }
            let hi = (c as u32 / 16) as usize;
            let lo = (c as u32 % 16) as usize;
            out.append(digits.substring_char(hi, hi + 1));
            out.append(digits.substring_char(lo, lo + 1));
        } else {
            out.append(s.substring_char(i, i + 1));
        }
        proof {
            assert(s@.subrange(0, i + 1).drop_last() =~= s@.subrange(0, i as int));
            assert(out@ =~= before + escape_char(c));
        }
        i = i + 1;
    }
    assert(s@.subrange(0, n as int) =~= s@);
}

/// A list of values as one variable (see `encode_list`).
pub fn encode_values(xs: &Vec<String>, json: bool) -> (r: String)
    ensures
        r@ == encode_list(views(xs@), json),
{
    let ghost items = views(xs@).map_values(|x: Seq<char>| list_item(x, json));
    let mut body = String::new();
    let mut k: usize = 0;
    while k < xs.len()
        invariant
            k <= xs@.len(),
            items == views(xs@).map_values(|x: Seq<char>| list_item(x, json)),
            body@ == joined(items.subrange(0, k as int), if json { ","@ } else { " "@ }),
        decreases xs@.len() - k,
    {
        let ghost before = body@;
        if k > 0 {
            if json {
                body.append(",");
            } else {
                body.append(" ");
            }
        }
        let ghost with_sep = body@;
        if json {
            body.append("\"");
            push_escaped(&mut body, xs[k].as_str());
            body.append("\"");
        } else {
            body.append(xs[k].as_str());
        }
        proof {
            assert(items[k as int] == list_item(xs@[k as int]@, json));
            assert(body@ =~= with_sep + items[k as int]);
            assert(items.subrange(0, k + 1).drop_last() =~= items.subrange(0, k as int));
        }
        k = k + 1;
    }
    assert(items.subrange(0, xs@.len() as int) =~= items);
    if !json {
        assert(items =~= views(xs@));
    }
    if json {
        let mut r = String::from_str("[");
        r.append(body.as_str());
        r.append("]");
        r
    } else {
        body
    }
}

/// The addresses of one family (`v6` for IPv6), in their order.
pub fn select_family(xs: &Vec<String>, v6: bool) -> (r: Vec<String>)
    ensures
        views(r@) == family(views(xs@), v6),
{
    let mut out: Vec<String> = Vec::new();
    let mut k: usize = 0;
    while k < xs.len()
        invariant
            k <= xs@.len(),
            views(out@) == family(views(xs@).subrange(0, k as int), v6),
        decreases xs@.len() - k,
    {
        let ghost before = out@;
        proof {
            assert(views(xs@).subrange(0, k + 1).drop_last() =~= views(xs@).subrange(0, k as int));
        }
        if contains_exec(xs[k].as_str(), ":") == v6 {
            out.push(xs[k].clone());
            assert(views(out@) =~= views(before).push(xs@[k as int]@));
        }
        k = k + 1;
    }
    assert(views(xs@).subrange(0, xs@.len() as int) =~= views(xs@));
    out
}

fn var(name: &str, value: String) -> (r: (String, String))
    ensures
        r.0@ == name@,
        r.1@ == value@,
{
    (String::from_str(name), value)
}

impl Arguments {
    /// The arguments of the scripts of event `ev` on `link`.
    pub fn build(ev: &LinkEvent, link: &LinkSnapshot) -> (r: Arguments)
        ensures
            views(r.args@) == args_spec(*ev, *link),
    {
        let mut args: Vec<String> = Vec::new();
        args.push(String::from_str(ev.state.name()));
        args.push(link.iface.clone());
        assert(views(args@) =~= args_spec(*ev, *link));
        Arguments { args }
    }
}

impl Environments {
    /// The environment of the scripts of event `ev` on `link`; `json` selects
    /// how lists are written and adds `JSON=1`.
    pub fn build(ev: &LinkEvent, link: &LinkSnapshot, json: bool) -> (r: Environments)
        ensures
            pair_views(r.vars@) == env_spec(*ev, *link, json),
    {
        let st = &link.status;
        let mut vars: Vec<(String, String)> = Vec::new();
        vars.push(
            var("PATH", String::from_str("/usr/local/sbin:/usr/local/bin:/usr/sbin:/usr/bin:/sbin:/bin")),
        );
        vars.push(var("STATE", String::from_str(ev.state.name())));
        vars.push(var("IFACE", link.iface.clone()));
        let v4 = select_family(&st.addresses, false);
        vars.push(var("IP_ADDRS", encode_values(&v4, json)));
        let v6 = select_family(&st.addresses, true);
        vars.push(var("IP6_ADDRS", encode_values(&v6, json)));
        vars.push(var("GATEWAY", encode_values(&st.gateway, json)));
        vars.push(var("DNS", encode_values(&st.dns, json)));
        vars.push(var("DOMAINS", encode_values(&st.domains, json)));
        vars.push(var("ROUTES", encode_values(&st.routes, json)));
        vars.push(var("ADMIN_STATE", st.admin_state.clone()));
        vars.push(var("OPER_STATE", st.oper_state.clone()));
        if json {
            vars.push(var("JSON", String::from_str("1")));
        }
        assert(pair_views(vars@) =~= env_spec(*ev, *link, json));
        Environments { vars }
    }
}

} // verus!
