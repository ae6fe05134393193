//! Rendering of fetched snapshots — or fetch failures — into message
//! payloads.
//!
//! A payload is rebuilt from scratch every tick and fully replaces the
//! previous one. An available roster groups the player list into three
//! side-by-side columns, round-robin by index; an available platform summary
//! lists one field per component kept by the denylist; an unavailable source
//! renders a single marker field in the error color. The footer carries an
//! alternating liveness glyph.
use vstd::prelude::*;

use crate::codec::digits_of;
use crate::codec::u64_string;
use crate::text::sanitize_name;
use crate::text::spec_sanitize;
use crate::text::spec_truncate;
use crate::text::str_eq;
use crate::text::truncate;
use crate::BRAND_COLOR;
use crate::ERROR_COLOR;
use crate::SUCCESS_COLOR;

verus! {

/// One player as the roster source reports it.
pub struct PlayerEntry {
    pub name: String,
    pub ping: u32,
}

/// One tick's fetched state of the game server.
pub struct RosterSnapshot {
    pub players: Vec<PlayerEntry>,
    pub max_players: String,
}

/// One platform component with its operational flag.
pub struct StatusComponent {
    pub name: String,
    pub operational: bool,
}

/// One tick's fetched state of the platform status summary.
pub struct ComponentsSnapshot {
    pub components: Vec<StatusComponent>,
}

/// A platform component as the summary endpoint reports it, before the
/// denylist and the status mapping are applied.
pub struct RawComponent {
    pub name: String,
    pub status: String,
}

/// Why a fetch produced no snapshot. Both kinds are recovered locally by
/// rendering an unavailable payload; neither is ever fatal.
#[derive(Clone, Copy, Debug, PartialEq, Eq)]
pub enum FetchError {
    /// The endpoint could not be reached or answered with a failure.
    Unreachable,
    /// The endpoint answered, but its body could not be understood.
    MalformedResponse,
}

/// One field of a rendered message: label, value, side-by-side flag.
pub struct EmbedField {
    pub label: String,
    pub value: String,
    pub inline: bool,
}

/// One link button under a rendered message.
pub struct LinkButton {
    pub label: String,
    pub url: String,
}

/// A fully rendered message payload.
pub struct RenderedPayload {
    pub title: String,
    pub description: String,
    pub fields: Vec<EmbedField>,
    pub color: u32,
    pub footer: String,
    pub links: Vec<LinkButton>,
}

/// A field as a mathematical value.
pub open spec fn field_view(f: EmbedField) -> (Seq<char>, Seq<char>, bool) {
    (f.label@, f.value@, f.inline)
}

/// A field list as a mathematical value.
pub open spec fn fields_view(v: Seq<EmbedField>) -> Seq<(Seq<char>, Seq<char>, bool)> {
    v.map_values(|f: EmbedField| field_view(f))
}

/// A link button as a mathematical value.
pub open spec fn link_view(l: LinkButton) -> (Seq<char>, Seq<char>) {
    (l.label@, l.url@)
}

/// A link list as a mathematical value.
pub open spec fn links_view(v: Seq<LinkButton>) -> Seq<(Seq<char>, Seq<char>)> {
    v.map_values(|l: LinkButton| link_view(l))
}

/// A component as a mathematical value.
pub open spec fn component_view(c: StatusComponent) -> (Seq<char>, bool) {
    (c.name@, c.operational)
}

/// A component list as a mathematical value.
pub open spec fn components_view(v: Seq<StatusComponent>) -> Seq<(Seq<char>, bool)> {
    v.map_values(|c: StatusComponent| component_view(c))
}

/// The footer of every payload: a liveness glyph that alternates each tick,
/// then the short brand name. The glyph changing is how an operator tells
/// the loop is alive even while the data is not.
pub open spec fn footer_text(blink: bool) -> Seq<char> {
    if blink {
        "⚫ SLRP"@
    } else {
        "⚪ SLRP"@
    }
}

/// The footer for one tick.
pub fn render_footer(blink: bool) -> (r: String)
    ensures
        r@ == footer_text(blink),
{
    if blink {
        "⚫ SLRP".to_owned()
    } else {
        "⚪ SLRP".to_owned()
    }
}

/// The glyph state of the next tick.
pub fn next_blink(blink: bool) -> (r: bool)
    ensures
        r == !blink,
{
    !blink
}

/// One roster line: the player's name cut to twelve characters and escaped,
/// then the round-trip time.
pub open spec fn player_line(p: PlayerEntry) -> Seq<char> {
    spec_sanitize(spec_truncate(p.name@, 12)) + " *("@ + digits_of(p.ping as nat) + "ms)*\n"@
}

/// Renders one roster line.
fn render_player_line(p: &PlayerEntry) -> (r: String)
    ensures
        r@ == player_line(*p),
{
    let mut line = sanitize_name(truncate(p.name.as_str(), 12));
    line.append(" *(");
    let ping_s = u64_string(p.ping as u64);
    line.append(ping_s.as_str());
    line.append("ms)*\n");
    proof {
        assert(line@ =~= player_line(*p));
    }
    line
}

/// The content of display column `j` after the first `n` roster entries:
/// entry `i` goes to column `(i + 1) % 3`, in index order.
pub open spec fn column_content(ps: Seq<PlayerEntry>, j: int, n: int) -> Seq<char>
    decreases n,
{
    if n <= 0 {
        Seq::empty()
    } else {
        column_content(ps, j, n - 1) + (if n % 3 == j {
            player_line(ps[n - 1])
        } else {
            Seq::empty()
        })
    }
}

/// Distributes the roster over the three display columns, round-robin by
/// index; the first column additionally carries the roster heading.
pub fn player_columns(players: &Vec<PlayerEntry>) -> (cols: (String, String, String))
    ensures
        cols.0@ == "**Játékosok:**\n"@ + column_content(players@, 0, players@.len() as int),
        cols.1@ == column_content(players@, 1, players@.len() as int),
        cols.2@ == column_content(players@, 2, players@.len() as int),
{
    let mut c0 = "**Játékosok:**\n".to_owned();
    let mut c1 = String::new();
    let mut c2 = String::new();
    let ghost header = "**Játékosok:**\n"@;
    let mut i: usize = 0;
    while i < players.len()
        invariant
            i <= players@.len(),
            c0@ == header + column_content(players@, 0, i as int),
            c1@ == column_content(players@, 1, i as int),
            c2@ == column_content(players@, 2, i as int),
        decreases players@.len() - i,
    {
        let line = render_player_line(&players[i]);
        let slot = (i + 1) % 3;
        if slot == 0 {
            c0.append(line.as_str());
        } else if slot == 1 {
            c1.append(line.as_str());
        } else {
            c2.append(line.as_str());
        }
        i += 1;
        proof {
            assert(c0@ =~= header + column_content(players@, 0, i as int));
            assert(c1@ =~= column_content(players@, 1, i as int));
            assert(c2@ =~= column_content(players@, 2, i as int));
        }
    }
    (c0, c1, c2)
}

/// Component names that are irrelevant to this deployment and never
/// rendered.
pub open spec fn denied_component(name: Seq<char>) -> bool {
    name == "Server List Frontend"@ || name == "RedM"@ || name == "\"Runtime\""@ || name
        == "IDMS"@
}

/// The components kept from the first `n` raw entries: denylisted names
/// dropped, the status text collapsed to an operational flag.
pub open spec fn spec_build_components(raw: Seq<RawComponent>, n: int) -> Seq<(Seq<char>, bool)>
    decreases n,
{
    if n <= 0 {
        Seq::empty()
    } else {
        spec_build_components(raw, n - 1) + (if denied_component(raw[n - 1].name@) {
            Seq::empty()
        } else {
            seq![(raw[n - 1].name@, raw[n - 1].status@ == "operational"@)]
        })
    }
}

/// Builds the snapshot component list from what the summary endpoint
/// reported: drops the denylisted components and marks each remaining one
/// operational exactly when its status text says so.
pub fn build_components(raw: &Vec<RawComponent>) -> (r: Vec<StatusComponent>)
    ensures
        components_view(r@) == spec_build_components(raw@, raw@.len() as int),
{
    let mut out: Vec<StatusComponent> = Vec::new();
    let mut i: usize = 0;
    while i < raw.len()
        invariant
            i <= raw@.len(),
            components_view(out@) == spec_build_components(raw@, i as int),
        decreases raw@.len() - i,
    {
        let c = &raw[i];
        let denied = str_eq(c.name.as_str(), "Server List Frontend") || str_eq(
            c.name.as_str(),
            "RedM",
        ) || str_eq(c.name.as_str(), "\"Runtime\"") || str_eq(c.name.as_str(), "IDMS");
        if !denied {
            let op = str_eq(c.status.as_str(), "operational");
            out.push(StatusComponent { name: c.name.clone(), operational: op });
        }
        i += 1;
        proof {
            assert(components_view(out@) =~= spec_build_components(raw@, i as int));
        }
    }
    out
}

/// The player-count text of an available roster.
pub open spec fn roster_count_text(count: nat, max: Seq<char>) -> Seq<char> {
    digits_of(count) + "/"@ + max
}

/// A column field, present only when the column has content.
pub open spec fn maybe_column_field(c: Seq<char>) -> Seq<(Seq<char>, Seq<char>, bool)> {
    if c.len() == 0 {
        Seq::empty()
    } else {
        seq![("\u{200b}"@, c, true)]
    }
}

/// The fields of an available roster payload: the status row, then — when
/// anyone is online — the heading column and its two companions.
pub open spec fn roster_fields(ps: Seq<PlayerEntry>, max: Seq<char>) -> Seq<
    (Seq<char>, Seq<char>, bool),
> {
    let base = seq![
        ("Szerver Státusz:"@, "✅ Elérhető"@, true),
        ("Elérhető Játékosok:"@, roster_count_text(ps.len(), max), true),
        ("Következő Újraindításig:"@, "6 óra 15 perc"@, true),
    ];
    if ps.len() == 0 {
        base
    } else {
        base + maybe_column_field("**Játékosok:**\n"@ + column_content(ps, 0, ps.len() as int))
            + maybe_column_field(column_content(ps, 1, ps.len() as int)) + maybe_column_field(
            column_content(ps, 2, ps.len() as int),
        )
    }
}

/// The single field of an unavailable payload.
pub open spec fn unavailable_field(label: Seq<char>) -> Seq<(Seq<char>, Seq<char>, bool)> {
    seq![(label, "❌ Nem elérhető"@, true)]
}

/// The value text of one component row.
pub open spec fn ok_text(operational: bool) -> Seq<char> {
    if operational {
        "✔ Elérhető"@
    } else {
        "❌ Nem elérhető"@
    }
}

/// One field per kept component.
pub open spec fn component_fields(comps: Seq<(Seq<char>, bool)>) -> Seq<
    (Seq<char>, Seq<char>, bool),
> {
    comps.map_values(|c: (Seq<char>, bool)| (c.0, ok_text(c.1), true))
}

/// The fields of an available platform payload: the global row, then the
/// components.
pub open spec fn cfx_fields(comps: Seq<(Seq<char>, bool)>) -> Seq<(Seq<char>, Seq<char>, bool)> {
    seq![("Globális Státusz:"@, "✅ Elérhető"@, false)] + component_fields(comps)
}

/// The description under the server-status title.
pub open spec fn server_description(channel_id: u64) -> Seq<char> {
    "A <#"@ + digits_of(channel_id as nat)
        + "> csatornában mindig értesülsz a szerver aktuális elérhetőségéről és állapotáról!"@
}

/// The description under the platform-status title.
pub open spec fn cfx_description(channel_id: u64) -> Seq<char> {
    "A <#"@ + digits_of(channel_id as nat)
        + "> csatornában mindig értesülsz a [**CFX**](https://status.cfx.re) szolgáltatások aktuális státuszáról!"@
}

/// The two link buttons under the server-status message.
pub open spec fn server_links(guild_id: u64, help_channel_id: u64) -> Seq<(Seq<char>, Seq<char>)> {
    seq![
        ("Weboldal"@, "https://slhungary.com"@),
        (
            "Segítségkérés"@,
            "https://discord.com/channels/"@ + digits_of(guild_id as nat) + "/"@ + digits_of(
                help_channel_id as nat,
            ),
        ),
    ]
}

/// Renders the game-server status payload for one tick.
///
/// An available roster keeps the brand color and lists the player count and
/// columns; a failed fetch yields exactly one unavailable field and the
/// error color. The identity record is untouched by rendering.
pub fn render_server_status(
    fetch: &Result<RosterSnapshot, FetchError>,
    blink: bool,
    status_channel_id: u64,
    guild_id: u64,
    help_channel_id: u64,
) -> (p: RenderedPayload)
    ensures
        p.title@ == "Smoke Life RolePlay | Szerver Státusz"@,
        p.description@ == server_description(status_channel_id),
        p.footer@ == footer_text(blink),
        links_view(p.links@) == server_links(guild_id, help_channel_id),
        match fetch {
            Ok(snap) => p.color == BRAND_COLOR && fields_view(p.fields@) == roster_fields(
                snap.players@,
                snap.max_players@,
            ),
            Err(_) => p.color == ERROR_COLOR && fields_view(p.fields@) == unavailable_field(
                "Szerver Státusz:"@,
            ),
        },
{
    let mut description = "A <#".to_owned();
    let id_s = u64_string(status_channel_id);
    description.append(id_s.as_str());
    description.append(
        "> csatornában mindig értesülsz a szerver aktuális elérhetőségéről és állapotáról!",
    );
    proof {
        assert(description@ =~= server_description(status_channel_id));
    }
    let mut help_url = "https://discord.com/channels/".to_owned();
    let g_s = u64_string(guild_id);
    help_url.append(g_s.as_str());
    help_url.append("/");
    let h_s = u64_string(help_channel_id);
    help_url.append(h_s.as_str());
    let mut links: Vec<LinkButton> = Vec::new();
    links.push(
        LinkButton { label: "Weboldal".to_owned(), url: "https://slhungary.com".to_owned() },
    );
    links.push(LinkButton { label: "Segítségkérés".to_owned(), url: help_url });
    proof {
        assert(links_view(links@) =~= server_links(guild_id, help_channel_id));
    }
    let mut fields: Vec<EmbedField> = Vec::new();
    let color: u32;
    match fetch {
        Ok(snap) => {
            color = BRAND_COLOR;
            fields.push(
                EmbedField {
                    label: "Szerver Státusz:".to_owned(),
                    value: "✅ Elérhető".to_owned(),
                    inline: true,
                },
            );
            let mut count = u64_string(snap.players.len() as u64);
            count.append("/");
            count.append(snap.max_players.as_str());
            proof {
                assert(count@ =~= roster_count_text(snap.players@.len(), snap.max_players@));
            }
            fields.push(
                EmbedField { label: "Elérhető Játékosok:".to_owned(), value: count, inline: true },
            );
            fields.push(
                EmbedField {
                    label: "Következő Újraindításig:".to_owned(),
                    value: "6 óra 15 perc".to_owned(),
                    inline: true,
                },
            );
            if snap.players.len() > 0 {
                let (c0, c1, c2) = player_columns(&snap.players);
                if c0.as_str().unicode_len() > 0 {
                    fields.push(
                        EmbedField { label: "\u{200b}".to_owned(), value: c0, inline: true },
                    );
                }
                if c1.as_str().unicode_len() > 0 {
                    fields.push(
                        EmbedField { label: "\u{200b}".to_owned(), value: c1, inline: true },
                    );
                }
                if c2.as_str().unicode_len() > 0 {
                    fields.push(
                        EmbedField { label: "\u{200b}".to_owned(), value: c2, inline: true },
                    );
                }
            }
            proof {
                assert(fields_view(fields@) =~= roster_fields(snap.players@, snap.max_players@));
            }
        },
        Err(_) => {
            color = ERROR_COLOR;
            fields.push(
                EmbedField {
                    label: "Szerver Státusz:".to_owned(),
                    value: "❌ Nem elérhető".to_owned(),
                    inline: true,
                },
            );
            proof {
                assert(fields_view(fields@) =~= unavailable_field("Szerver Státusz:"@));
            }
        },
    }
    RenderedPayload {
        title: "Smoke Life RolePlay | Szerver Státusz".to_owned(),
        description,
        fields,
        color,
        footer: render_footer(blink),
        links,
    }
}

/// Renders the platform status payload for one tick.
///
/// An available summary keeps the healthy color and lists one field per kept
/// component; a failed fetch yields exactly one unavailable field and the
/// error color.
pub fn render_cfx_status(
    fetch: &Result<ComponentsSnapshot, FetchError>,
    blink: bool,
    cfx_status_channel_id: u64,
) -> (p: RenderedPayload)
    ensures
        p.title@ == "CFX Státusz"@,
        p.description@ == cfx_description(cfx_status_channel_id),
        p.footer@ == footer_text(blink),
        p.links@.len() == 0,
        match fetch {
            Ok(snap) => p.color == SUCCESS_COLOR && fields_view(p.fields@) == cfx_fields(
                components_view(snap.components@),
            ),
            Err(_) => p.color == ERROR_COLOR && fields_view(p.fields@) == unavailable_field(
                "Globális Státusz:"@,
            ),
        },
{
    let mut description = "A <#".to_owned();
    let id_s = u64_string(cfx_status_channel_id);
    description.append(id_s.as_str());
    description.append(
        "> csatornában mindig értesülsz a [**CFX**](https://status.cfx.re) szolgáltatások aktuális státuszáról!",
    );
    proof {
        assert(description@ =~= cfx_description(cfx_status_channel_id));
    }
    let mut fields: Vec<EmbedField> = Vec::new();
    let color: u32;
    match fetch {
        Ok(snap) => {
            color = SUCCESS_COLOR;
            fields.push(
                EmbedField {
                    label: "Globális Státusz:".to_owned(),
                    value: "✅ Elérhető".to_owned(),
                    inline: false,
                },
            );
            let ghost cv = components_view(snap.components@);
            let mut i: usize = 0;
            while i < snap.components.len()
                invariant
                    i <= snap.components@.len(),
                    cv == components_view(snap.components@),
                    cv.len() == snap.components@.len(),
                    fields_view(fields@) == cfx_fields(cv.take(i as int)),
                decreases snap.components@.len() - i,
            {
                let comp = &snap.components[i];
                let value = if comp.operational {
                    "✔ Elérhető".to_owned()
                } else {
                    "❌ Nem elérhető".to_owned()
                };
                let ghost pre = fields@;
                fields.push(EmbedField { label: comp.name.clone(), value, inline: true });
                i += 1;
                proof {
                    let k = i - 1;
                    assert(cv[k] == component_view(snap.components@[k]));
                    let elem = (cv[k].0, ok_text(cv[k].1), true);
                    assert(fields@.len() == pre.len() + 1);
                    assert(field_view(fields@.last()) == elem);
                    assert(fields_view(fields@) =~= fields_view(pre).push(elem));
                    assert(component_fields(cv.take(i as int)) =~= component_fields(
                        cv.take(k),
                    ).push(elem));
                    assert(cfx_fields(cv.take(i as int)) =~= cfx_fields(cv.take(k)).push(elem));
                    assert(fields_view(fields@) =~= cfx_fields(cv.take(i as int)));
                }
            }
            proof {
                assert(cv.take(snap.components@.len() as int) =~= cv);
            }
        },
        Err(_) => {
            color = ERROR_COLOR;
            fields.push(
                EmbedField {
                    label: "Globális Státusz:".to_owned(),
                    value: "❌ Nem elérhető".to_owned(),
                    inline: true,
                },
            );
            proof {
                assert(fields_view(fields@) =~= unavailable_field("Globális Státusz:"@));
            }
        },
    }
    RenderedPayload {
        title: "CFX Státusz".to_owned(),
        description,
        fields,
        color,
        footer: render_footer(blink),
        links: Vec::new(),
    }
}

} // verus!
