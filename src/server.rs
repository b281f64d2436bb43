//! Server placements of a managed domain: parsing their directives,
//! assigning port offsets, and the management operations that add them.
use vstd::prelude::*;
use crate::text::{
    chars_of, dec, eq_ignore_ascii_case, eq_ignore_case, parse_u16, parse_u16_spec,
    push_decimal, push_str, split_chars, split_on, string_of, views,
};

verus! {

broadcast use vstd::string::group_string_axioms;

/// The step between offsets that are assigned automatically.
pub const DEFAULT_OFFSET_INCREMENT: u16 = 100;

/// The server group that a server joins.
#[derive(Clone, Copy, Debug, PartialEq, Eq, Structural)]
pub enum ServerGroup {
    MainServerGroup,
    OtherServerGroup,
}

pub open spec fn group_name_spec(g: ServerGroup) -> Seq<char> {
    match g {
        ServerGroup::MainServerGroup => "main-server-group"@,
        ServerGroup::OtherServerGroup => "other-server-group"@,
    }
}

impl ServerGroup {
    /// The name of the group in the management model.
    pub fn group_name(&self) -> (r: &'static str)
        ensures
            r@ == group_name_spec(*self),
    {
        match self {
            ServerGroup::MainServerGroup => "main-server-group",
            ServerGroup::OtherServerGroup => "other-server-group",
        }
    }
}

/// One server of a host: its name, group, port offset and whether it starts
/// with its host. An offset of 0 means that none was given.
#[derive(Debug, PartialEq, Eq)]
pub struct Server {
    pub name: String,
    pub server_group: ServerGroup,
    pub offset: u16,
    pub autostart: bool,
}

impl Clone for Server {
    fn clone(&self) -> (r: Self)
        ensures
            r == *self,
    {
        self.with_offset(self.offset)
    }
}

/// Why a server directive cannot be parsed.
#[derive(Debug, PartialEq, Eq)]
pub enum ServerParseError {
    /// The pieces of the directive are missing or out of order.
    InvalidFormat,
    /// The group piece names no known group.
    InvalidServerGroup(String),
}

/// What a server directive means, in terms of character sequences.
pub enum ParsedServer {
    Parsed { name: Seq<char>, group: ServerGroup, offset: u16, autostart: bool },
    Format,
    Group(Seq<char>),
}

pub open spec fn is_start(p: Seq<char>) -> bool {
    eq_ignore_case(p, "start"@)
}

/// The group that a group piece names, ignoring ASCII case.
pub open spec fn group_spec(g: Seq<char>) -> Option<ServerGroup> {
    if eq_ignore_case(g, "msg"@) || eq_ignore_case(g, "main-server-group"@) {
        Some(ServerGroup::MainServerGroup)
    } else if eq_ignore_case(g, "osg"@) || eq_ignore_case(g, "other-server-group"@) {
        Some(ServerGroup::OtherServerGroup)
    } else {
        None
    }
}

/// How many of the pieces after the name an optional group takes.
pub open spec fn group_end(rest: Seq<Seq<char>>) -> nat {
    if rest.len() > 0 && group_spec(rest[0]) is Some {
        1
    } else {
        0
    }
}

/// Where the pieces of the optional group and offset end.
pub open spec fn offset_end(rest: Seq<Seq<char>>) -> nat {
    let g = group_end(rest);
    if g < rest.len() && parse_u16_spec(rest[g as int]) is Some {
        g + 1
    } else {
        g
    }
}

/// Where the pieces of the optional group, offset and `start` end.
pub open spec fn start_end(rest: Seq<Seq<char>>) -> nat {
    let o = offset_end(rest);
    if o < rest.len() && is_start(rest[o as int]) {
        o + 1
    } else {
        o
    }
}

/// The meaning of a directive `name[:group][:offset][:start]`, pieces
/// split at `:`. The name is not empty; after it come, each optional and in
/// this order, a group alias, an offset and `start`, and nothing else. A
/// first piece after the name that is none of the three, and not empty, is
/// an unknown group; any other leftover piece is a format error.
pub open spec fn parse_server_spec(s: Seq<char>) -> ParsedServer {
    let p = split_on(s, ':');
    let name = p[0];
    let rest = p.drop_first();
    if name.len() == 0 {
        ParsedServer::Format
    } else if start_end(rest) == rest.len() {
        ParsedServer::Parsed {
            name,
            group: if group_end(rest) == 1 {
                group_spec(rest[0])->0
            } else {
                ServerGroup::MainServerGroup
            },
            offset: if offset_end(rest) > group_end(rest) {
                parse_u16_spec(rest[group_end(rest) as int])->0
            } else {
                0
            },
            autostart: start_end(rest) > offset_end(rest),
        }
    } else if start_end(rest) == 0 && rest[0].len() > 0 {
        ParsedServer::Group(rest[0])
    } else {
        ParsedServer::Format
    }
}

/// Whether a parse result is what a parsed meaning says.
pub open spec fn parse_result_is(r: Result<Server, ServerParseError>, m: ParsedServer) -> bool {
    match m {
        ParsedServer::Parsed { name, group, offset, autostart } => r matches Ok(s) && s.name@
            == name && s.server_group == group && s.offset == offset && s.autostart == autostart,
        ParsedServer::Format => r matches Err(ServerParseError::InvalidFormat),
        ParsedServer::Group(g) => r matches Err(ServerParseError::InvalidServerGroup(t)) && t@
            == g,
    }
}

fn is_start_piece(p: &Vec<char>) -> (r: bool)
    ensures
        r == is_start(p@),
{
    eq_ignore_ascii_case(p, "start")
}

fn parse_group(g: &Vec<char>) -> (r: Option<ServerGroup>)
    ensures
        r == group_spec(g@),
{
    if eq_ignore_ascii_case(g, "msg") || eq_ignore_ascii_case(g, "main-server-group") {
        Some(ServerGroup::MainServerGroup)
    } else if eq_ignore_ascii_case(g, "osg") || eq_ignore_ascii_case(g, "other-server-group") {
        Some(ServerGroup::OtherServerGroup)
    } else {
        None
    }
}

fn parse_server_chars(input: &Vec<char>) -> (r: Result<Server, ServerParseError>)
    ensures
        parse_result_is(r, parse_server_spec(input@)),
{
    let p = split_chars(input, ':');
    proof {
        crate::text::lemma_split_on_nonempty(input@, ':');
    }
    let ghost pv = views(p@);
    let ghost rest = pv.drop_first();
    assert forall|k: int| 0 <= k < rest.len() implies #[trigger] rest[k] == p@[k + 1]@ by {}
    assert(pv[0] == p@[0]@);
    if p[0].len() == 0 {
        return Err(ServerParseError::InvalidFormat);
    }
    let mut i: usize = 1;
    let mut group = ServerGroup::MainServerGroup;
    if i < p.len() {
        assert(rest[0] == p@[1]@);
        if let Some(g) = parse_group(&p[i]) {
            group = g;
            i = i + 1;
        }
    }
    assert(i == group_end(rest) + 1);
    let mut offset: u16 = 0;
    if i < p.len() {
        assert(rest[i - 1] == p@[i as int]@);
        if let Some(o) = parse_u16(&p[i]) {
            offset = o;
            i = i + 1;
        }
    }
    assert(i == offset_end(rest) + 1);
    let mut autostart = false;
    if i < p.len() {
        assert(rest[i - 1] == p@[i as int]@);
        if is_start_piece(&p[i]) {
            autostart = true;
            i = i + 1;
        }
    }
    assert(i == start_end(rest) + 1);
    if i == p.len() {
        let name = string_of(&p[0]);
        Ok(Server { name, server_group: group, offset, autostart })
    } else if i == 1 && p[1].len() > 0 {
        assert(rest[0] == p@[1]@);
        Err(ServerParseError::InvalidServerGroup(string_of(&p[1])))
    } else {
        Err(ServerParseError::InvalidFormat)
    }
}

/// Whether parsing each piece gives what its meaning says, up to the first
/// failure, which ends the list.
pub open spec fn parse_servers_result_is(
    r: Result<Vec<Server>, ServerParseError>,
    pieces: Seq<Seq<char>>,
) -> bool {
    if forall|i: int|
        0 <= i < pieces.len() ==> #[trigger] parse_server_spec(pieces[i]) is Parsed {
        r matches Ok(v) && v.len() == pieces.len() && forall|i: int|
            0 <= i < pieces.len() ==> parse_result_is(
                Ok(#[trigger] v@[i]),
                parse_server_spec(pieces[i]),
            )
    } else {
        exists|k: int|
            0 <= k < pieces.len() && !(#[trigger] parse_server_spec(pieces[k]) is Parsed)
                && (forall|i: int|
                0 <= i < k ==> #[trigger] parse_server_spec(pieces[i]) is Parsed) && match r {
                Ok(_) => false,
                Err(e) => parse_result_is(Err(e), parse_server_spec(pieces[k])),
            }
    }
}

impl Server {
    /// Parses a comma-separated list of server directives; the first
    /// directive that does not parse gives the error.
    pub fn parse_servers(input: &str) -> (r: Result<Vec<Server>, ServerParseError>)
        ensures
            parse_servers_result_is(r, split_on(input@, ',')),
    {
        let chars = chars_of(input);
        let pieces = split_chars(&chars, ',');
        let ghost pv = views(pieces@);
        let mut out: Vec<Server> = Vec::new();
        for i in 0..pieces.len()
            invariant
                pv == views(pieces@),
                pv == split_on(input@, ','),
                out.len() == i,
                forall|j: int| 0 <= j < i ==> #[trigger] parse_server_spec(pv[j]) is Parsed,
                forall|j: int|
                    0 <= j < i ==> parse_result_is(Ok(#[trigger] out@[j]), parse_server_spec(pv[j])),
        {
            assert(pv[i as int] == pieces@[i as int]@);
            match parse_server_chars(&pieces[i]) {
                Ok(s) => {
                    out.push(s);
                },
                Err(e) => {
                    assert(!(parse_server_spec(pv[i as int]) is Parsed));
                    return Err(e);
                },
            }
        }
        Ok(out)
    }

    /// Parses one directive `name[:group][:offset][:start]`.
    pub fn parse_server(input: &str) -> (r: Result<Server, ServerParseError>)
        ensures
            parse_result_is(r, parse_server_spec(input@)),
    {
        let chars = chars_of(input);
        parse_server_chars(&chars)
    }

    /// The management operation that adds this server to host `host`.
    pub fn add_server_op(&self, host: &str) -> (r: String)
        ensures
            r@ == add_server_op_spec(*self, host@),
    {
        let mut r = String::new();
        push_str(&mut r, "/host=");
        push_str(&mut r, host);
        push_str(&mut r, "/server-config=");
        push_str(&mut r, self.name.as_str());
        push_str(&mut r, ":add(group=");
        push_str(&mut r, self.server_group.group_name());
        let ghost before = r@;
        if self.offset > 0 {
            push_str(&mut r, ",socket-binding-port-offset=");
            push_decimal(&mut r, self.offset as u64);
        }
        push_str(&mut r, ",auto-start=");
        push_str(&mut r, if self.autostart { "true" } else { "false" });
        push_str(&mut r, ")");
        proof {
            if self.offset > 0 {
                assert(r@ =~= add_server_op_spec(*self, host@));
            } else {
                assert(r@ =~= add_server_op_spec(*self, host@));
            }
        }
        r
    }

    /// The same server with the given offset.
    pub fn with_offset(&self, offset: u16) -> (r: Server)
        ensures
            r == (Server { offset, ..*self }),
    {
        Server {
            name: self.name.clone(),
            server_group: self.server_group,
            offset,
            autostart: self.autostart,
        }
    }
}

pub open spec fn bool_spec(b: bool) -> Seq<char> {
    if b {
        "true"@
    } else {
        "false"@
    }
}

/// The management operation that adds server `s` to host `host`; the
/// offset is named only when one was given.
pub open spec fn add_server_op_spec(s: Server, host: Seq<char>) -> Seq<char> {
    "/host="@ + host + "/server-config="@ + s.name@ + ":add(group="@ + group_name_spec(
        s.server_group,
    ) + (if s.offset > 0 {
        ",socket-binding-port-offset="@ + dec(s.offset as nat)
    } else {
        Seq::<char>::empty()
    }) + ",auto-start="@ + bool_spec(s.autostart) + ")"@
}

// ------------------------------------------------------ offsets

/// The offsets of the servers, in order.
pub open spec fn offsets_of(servers: Seq<Server>) -> Seq<u16> {
    servers.map_values(|s: Server| s.offset)
}

/// The offset that server `i` ends with: the first keeps its own; a later
/// one keeps an offset it was given, and otherwise gets the offset of the
/// one before it plus `inc`, counting the first as 0.
pub open spec fn assigned_offset(offs: Seq<u16>, inc: u16, i: int) -> int
    decreases i,
{
    if i <= 0 {
        offs[0] as int
    } else {
        let last: int = if i == 1 {
            0
        } else {
            assigned_offset(offs, inc, i - 1)
        };
        if offs[i] == 0 {
            last + inc
        } else {
            offs[i] as int
        }
    }
}

/// Whether every assigned offset fits in `u16`.
pub open spec fn offsets_fit(servers: Seq<Server>, inc: u16) -> bool {
    forall|i: int|
        0 <= i < servers.len() ==> #[trigger] assigned_offset(offsets_of(servers), inc, i)
            <= u16::MAX
}

/// Whether `r` is `servers` with the assigned offsets and nothing else
/// changed.
pub open spec fn offsets_applied(servers: Seq<Server>, inc: u16, r: Seq<Server>) -> bool {
    &&& r.len() == servers.len()
    &&& forall|i: int|
        0 <= i < servers.len() ==> #[trigger] r[i] == (Server {
            offset: assigned_offset(offsets_of(servers), inc, i) as u16,
            ..servers[i]
        })
}

/// Assigns port offsets: the first server is left as it is; each later
/// server without an offset gets the previous server's offset plus
/// `offset`, and one with an offset keeps it, and the count goes on from it.
pub fn apply_offsets(servers: Vec<Server>, offset: u16) -> (r: Vec<Server>)
    requires
        offsets_fit(servers@, offset),
    ensures
        offsets_applied(servers@, offset, r@),
{
    let ghost offs = offsets_of(servers@);
    let mut out: Vec<Server> = Vec::new();
    let mut last: u16 = 0;
    for i in 0..servers.len()
        invariant
            offs == offsets_of(servers@),
            offsets_fit(servers@, offset),
            out.len() == i,
            i >= 2 ==> last == assigned_offset(offs, offset, i - 1),
            i < 2 ==> last == 0,
            forall|j: int|
                0 <= j < i ==> #[trigger] out@[j] == (Server {
                    offset: assigned_offset(offs, offset, j) as u16,
                    ..servers@[j]
                }),
    {
        let s = &servers[i];
        if i == 0 {
            out.push(s.with_offset(s.offset));
        } else {
            assert(assigned_offset(offs, offset, i as int) <= u16::MAX);
            let o: u16 = if s.offset == 0 {
                last + offset
            } else {
                s.offset
            };
            out.push(s.with_offset(o));
            last = o;
        }
    }
    out
}

/// Assigns port offsets as `apply_offsets` does, or gives `None` where an
/// assigned offset would not fit in `u16`.
pub fn try_apply_offsets(servers: Vec<Server>, offset: u16) -> (r: Option<Vec<Server>>)
    ensures
        offsets_fit(servers@, offset) ==> (r matches Some(v) && offsets_applied(servers@, offset, v@)),
        !offsets_fit(servers@, offset) ==> r is None,
{
    let ghost offs = offsets_of(servers@);
    let mut last: u32 = 0;
    for i in 0..servers.len()
        invariant
            offs == offsets_of(servers@),
            i >= 2 ==> last == assigned_offset(offs, offset, i - 1),
            i < 2 ==> last == 0,
            forall|j: int| 0 <= j < i ==> #[trigger] assigned_offset(offs, offset, j) <= u16::MAX,
    {
        let o: u32 = if i == 0 {
            servers[i].offset as u32
        } else if servers[i].offset == 0 {
            last + offset as u32
        } else {
            servers[i].offset as u32
        };
        if o > 65535 {
            assert(!offsets_fit(servers@, offset)) by {
                assert(assigned_offset(offs, offset, i as int) > u16::MAX);
            }
            return None;
        }
        if i > 0 {
            last = o;
        }
    }
    Some(apply_offsets(servers, offset))
}

/// A single server keeps everything, its offset included.
pub proof fn lemma_single_server_unchanged(servers: Seq<Server>, inc: u16, r: Seq<Server>)
    requires
        servers.len() == 1,
        offsets_applied(servers, inc, r),
    ensures
        r == servers,
{
    assert(r[0] == servers[0]);
    assert(r =~= servers);
}

/// Where no server has an offset, server `i` ends with `i` times the
/// increment.
pub proof fn lemma_unassigned_offsets_step(servers: Seq<Server>, inc: u16, r: Seq<Server>)
    requires
        forall|i: int| 0 <= i < servers.len() ==> #[trigger] servers[i].offset == 0,
        (servers.len() - 1) * inc <= u16::MAX,
        offsets_applied(servers, inc, r),
    ensures
        forall|i: int| 0 <= i < r.len() ==> #[trigger] r[i].offset == i * inc,
{
    assert forall|i: int| 0 <= i < r.len() implies #[trigger] r[i].offset == i * inc by {
        lemma_unassigned_offset_value(servers, inc, i);
        assert(i * inc <= (servers.len() - 1) * inc) by (nonlinear_arith)
            requires
                0 <= i <= servers.len() - 1,
                inc >= 0,
        ;
    }
}

proof fn lemma_unassigned_offset_value(servers: Seq<Server>, inc: u16, i: int)
    requires
        0 <= i < servers.len(),
        forall|j: int| 0 <= j < servers.len() ==> #[trigger] servers[j].offset == 0,
    ensures
        assigned_offset(offsets_of(servers), inc, i) == i * inc,
    decreases i,
{
    let offs = offsets_of(servers);
    assert(offs[i] == servers[i].offset);
    if i > 1 {
        lemma_unassigned_offset_value(servers, inc, i - 1);
    }
    assert(assigned_offset(offs, inc, i) == i * inc) by (nonlinear_arith)
        requires
            i <= 0 ==> assigned_offset(offs, inc, i) == 0,
            i == 1 ==> assigned_offset(offs, inc, i) == inc,
            i > 1 ==> assigned_offset(offs, inc, i) == assigned_offset(offs, inc, i - 1) + inc,
            i > 1 ==> assigned_offset(offs, inc, i - 1) == (i - 1) * inc,
            i >= 0,
    ;
}

/// Where server `j`, not the first, was given offset `k`, each server after
/// it up to `m` without an offset of its own continues the count from `k`;
/// only the offsets of that stretch need to fit in `u16`.
pub proof fn lemma_offsets_resume_after_pinned(
    servers: Seq<Server>,
    inc: u16,
    r: Seq<Server>,
    j: int,
    m: int,
)
    requires
        1 <= j < m < servers.len(),
        servers[j].offset != 0,
        forall|t: int| j < t <= m ==> #[trigger] servers[t].offset == 0,
        servers[j].offset + (m - j) * inc <= u16::MAX,
        offsets_applied(servers, inc, r),
    ensures
        assigned_offset(offsets_of(servers), inc, m) == servers[j].offset + (m - j) * inc,
        r[m].offset == servers[j].offset + (m - j) * inc,
    decreases m - j,
{
    let offs = offsets_of(servers);
    assert(offs[m] == servers[m].offset);
    assert(offs[j] == servers[j].offset);
    if m - 1 > j {
        assert((m - 1 - j) * inc <= (m - j) * inc) by (nonlinear_arith)
            requires
                m - 1 - j >= 0,
        ;
        lemma_offsets_resume_after_pinned(servers, inc, r, j, m - 1);
    } else {
        assert(assigned_offset(offs, inc, j) == offs[j] as int);
        assert((m - 1 - j) * inc == 0) by (nonlinear_arith)
            requires
                m - 1 - j == 0,
        ;
    }
    assert(assigned_offset(offs, inc, m - 1) == servers[j].offset + (m - 1 - j) * inc);
    assert(assigned_offset(offs, inc, m) == servers[j].offset + (m - j) * inc) by (nonlinear_arith)
        requires
            assigned_offset(offs, inc, m) == assigned_offset(offs, inc, m - 1) + inc,
            assigned_offset(offs, inc, m - 1) == servers[j].offset + (m - 1 - j) * inc,
    ;
}

} // verus!
