use statusbot::record::DataJson;
use statusbot::record::Target;
use statusbot::render::build_components;
use statusbot::render::next_blink;
use statusbot::render::player_columns;
use statusbot::render::render_cfx_status;
use statusbot::render::render_footer;
use statusbot::render::render_server_status;
use statusbot::render::ComponentsSnapshot;
use statusbot::render::FetchError;
use statusbot::render::PlayerEntry;
use statusbot::render::RawComponent;
use statusbot::render::RosterSnapshot;
use statusbot::text::sanitize_name;
use statusbot::text::truncate;
use statusbot::upsert::commit_outcome;
use statusbot::upsert::plan_upsert;
use statusbot::upsert::SendOutcome;
use statusbot::upsert::UpsertAction;
use statusbot::BRAND_COLOR;
use statusbot::ERROR_COLOR;
use statusbot::SUCCESS_COLOR;

fn player(name: &str, ping: u32) -> PlayerEntry {
    PlayerEntry { name: name.to_string(), ping }
}

#[test]
fn sanitize_escapes_each_markup_character() {
    assert_eq!(sanitize_name("a*b_c~d"), "a\\*b\\_c\\~d");
    assert_eq!(sanitize_name("x:y`z"), "x\\:y\\`z");
    assert_eq!(sanitize_name("back\\slash"), "back\\\\slash");
    assert_eq!(sanitize_name("plain name"), "plain name");
    assert_eq!(sanitize_name(""), "");
}

#[test]
fn truncate_cuts_at_twelve_characters_before_escaping() {
    let long = "abcdefghijkl_tail_that_goes_on";
    assert_eq!(truncate(long, 12), "abcdefghijkl");
    assert_eq!(sanitize_name(truncate(long, 12)), "abcdefghijkl");

    let marked = "****************";
    assert_eq!(truncate(marked, 12).chars().count(), 12);
    assert_eq!(sanitize_name(truncate(marked, 12)).len(), 24);

    let short = "abc";
    assert_eq!(truncate(short, 12), "abc");
}

#[test]
fn seven_players_fill_three_columns_round_robin() {
    let players: Vec<PlayerEntry> =
        (0..7).map(|i| player(&format!("p{}", i), i as u32)).collect();
    let (c0, c1, c2) = player_columns(&players);
    // Entry i lands in column (i + 1) % 3: the heading column gets 2 and 5,
    // the second column gets 0, 3 and 6, the third gets 1 and 4.
    assert_eq!(c0, "**Játékosok:**\np2 *(2ms)*\np5 *(5ms)*\n");
    assert_eq!(c1, "p0 *(0ms)*\np3 *(3ms)*\np6 *(6ms)*\n");
    assert_eq!(c2, "p1 *(1ms)*\np4 *(4ms)*\n");
    let sizes = [
        c0.matches("ms)*").count(),
        c1.matches("ms)*").count(),
        c2.matches("ms)*").count(),
    ];
    assert_eq!(sizes[0] + sizes[1] + sizes[2], 7);
    let mut sorted = sizes;
    sorted.sort();
    assert_eq!(sorted, [2, 2, 3]);
}

#[test]
fn unreachable_fetch_renders_single_unavailable_field_in_error_color() {
    let p = render_server_status(&Err(FetchError::Unreachable), true, 1, 2, 3);
    assert_eq!(p.fields.len(), 1);
    assert_eq!(p.fields[0].label, "Szerver Státusz:");
    assert_eq!(p.fields[0].value, "❌ Nem elérhető");
    assert_eq!(p.color, ERROR_COLOR);

    let q = render_cfx_status(&Err(FetchError::Unreachable), true, 1);
    assert_eq!(q.fields.len(), 1);
    assert_eq!(q.fields[0].label, "Globális Státusz:");
    assert_eq!(q.fields[0].value, "❌ Nem elérhető");
    assert_eq!(q.color, ERROR_COLOR);
}

#[test]
fn malformed_fetch_renders_like_unreachable() {
    let p = render_server_status(&Err(FetchError::MalformedResponse), false, 1, 2, 3);
    assert_eq!(p.fields.len(), 1);
    assert_eq!(p.color, ERROR_COLOR);
}

#[test]
fn available_roster_renders_count_columns_and_links() {
    let snap = RosterSnapshot {
        players: vec![player("alice", 30), player("bob*", 55)],
        max_players: "48".to_string(),
    };
    let p = render_server_status(&Ok(snap), true, 111, 222, 333);
    assert_eq!(p.title, "Smoke Life RolePlay | Szerver Státusz");
    assert_eq!(
        p.description,
        "A <#111> csatornában mindig értesülsz a szerver aktuális elérhetőségéről és állapotáról!"
    );
    assert_eq!(p.color, BRAND_COLOR);
    assert_eq!(p.footer, "⚫ SLRP");
    assert_eq!(p.fields.len(), 6);
    assert_eq!(p.fields[0].label, "Szerver Státusz:");
    assert_eq!(p.fields[0].value, "✅ Elérhető");
    assert_eq!(p.fields[1].label, "Elérhető Játékosok:");
    assert_eq!(p.fields[1].value, "2/48");
    assert_eq!(p.fields[2].label, "Következő Újraindításig:");
    assert_eq!(p.fields[2].value, "6 óra 15 perc");
    // Entry i lands in column (i + 1) % 3, so the heading column holds no
    // line yet, alice opens the second column and bob the third.
    assert_eq!(p.fields[3].label, "\u{200b}");
    assert_eq!(p.fields[3].value, "**Játékosok:**\n");
    assert_eq!(p.fields[4].value, "alice *(30ms)*\n");
    assert_eq!(p.fields[5].value, "bob\\* *(55ms)*\n");
    assert_eq!(p.links.len(), 2);
    assert_eq!(p.links[0].label, "Weboldal");
    assert_eq!(p.links[0].url, "https://slhungary.com");
    assert_eq!(p.links[1].label, "Segítségkérés");
    assert_eq!(p.links[1].url, "https://discord.com/channels/222/333");
}

#[test]
fn empty_roster_renders_status_fields_only() {
    let snap = RosterSnapshot { players: vec![], max_players: "48".to_string() };
    let p = render_server_status(&Ok(snap), false, 1, 2, 3);
    assert_eq!(p.fields.len(), 3);
    assert_eq!(p.fields[1].value, "0/48");
    assert_eq!(p.footer, "⚪ SLRP");
}

#[test]
fn component_denylist_and_status_mapping() {
    let raw = vec![
        RawComponent { name: "FiveM".to_string(), status: "operational".to_string() },
        RawComponent { name: "RedM".to_string(), status: "operational".to_string() },
        RawComponent { name: "Server List Frontend".to_string(), status: "down".to_string() },
        RawComponent { name: "\"Runtime\"".to_string(), status: "operational".to_string() },
        RawComponent { name: "IDMS".to_string(), status: "degraded".to_string() },
        RawComponent { name: "Forums".to_string(), status: "degraded_performance".to_string() },
    ];
    let comps = build_components(&raw);
    assert_eq!(comps.len(), 2);
    assert_eq!(comps[0].name, "FiveM");
    assert!(comps[0].operational);
    assert_eq!(comps[1].name, "Forums");
    assert!(!comps[1].operational);
}

#[test]
fn available_platform_summary_renders_global_row_then_components() {
    let raw = vec![
        RawComponent { name: "FiveM".to_string(), status: "operational".to_string() },
        RawComponent { name: "Forums".to_string(), status: "down".to_string() },
    ];
    let snap = ComponentsSnapshot { components: build_components(&raw) };
    let p = render_cfx_status(&Ok(snap), true, 777);
    assert_eq!(p.title, "CFX Státusz");
    assert_eq!(
        p.description,
        "A <#777> csatornában mindig értesülsz a [**CFX**](https://status.cfx.re) szolgáltatások aktuális státuszáról!"
    );
    assert_eq!(p.color, SUCCESS_COLOR);
    assert_eq!(p.fields.len(), 3);
    assert_eq!(p.fields[0].label, "Globális Státusz:");
    assert_eq!(p.fields[0].value, "✅ Elérhető");
    assert!(!p.fields[0].inline);
    assert_eq!(p.fields[1].label, "FiveM");
    assert_eq!(p.fields[1].value, "✔ Elérhető");
    assert!(p.fields[1].inline);
    assert_eq!(p.fields[2].label, "Forums");
    assert_eq!(p.fields[2].value, "❌ Nem elérhető");
    assert!(p.links.is_empty());
}

#[test]
fn footer_glyph_alternates_each_tick() {
    assert_eq!(render_footer(true), "⚫ SLRP");
    assert_eq!(render_footer(false), "⚪ SLRP");
    let mut blink = true;
    let mut seen = Vec::new();
    for _ in 0..4 {
        seen.push(render_footer(blink));
        blink = next_blink(blink);
    }
    assert_eq!(seen, vec!["⚫ SLRP", "⚪ SLRP", "⚫ SLRP", "⚪ SLRP"]);
}

#[test]
fn idempotent_creation_records_exactly_one_id() {
    let mut d = DataJson::new();
    let action = plan_upsert(&d, Target::ServerStatus);
    assert_eq!(action, UpsertAction::Create);
    let persist = commit_outcome(&mut d, Target::ServerStatus, action, SendOutcome::Delivered(41));
    assert!(persist);
    assert_eq!(d.get(Target::ServerStatus), Some(41));
    // Repeating the tick after success plans an edit, never a second create.
    for _ in 0..3 {
        let again = plan_upsert(&d, Target::ServerStatus);
        assert_eq!(again, UpsertAction::Edit(41));
        let persist_again =
            commit_outcome(&mut d, Target::ServerStatus, again, SendOutcome::Delivered(41));
        assert!(!persist_again);
        assert_eq!(d.get(Target::ServerStatus), Some(41));
    }
}

#[test]
fn failed_create_stays_uncreated_and_retries() {
    let mut d = DataJson::new();
    let action = plan_upsert(&d, Target::CfxStatus);
    assert_eq!(action, UpsertAction::Create);
    let persist = commit_outcome(&mut d, Target::CfxStatus, action, SendOutcome::SendFailed);
    assert!(!persist);
    assert_eq!(d.get(Target::CfxStatus), None);
    assert_eq!(plan_upsert(&d, Target::CfxStatus), UpsertAction::Create);
}

#[test]
fn edit_stability_over_consecutive_ticks() {
    let mut d = DataJson::new();
    d.record_sent(Target::ServerStatus, 900);
    for i in 0..5u64 {
        let action = plan_upsert(&d, Target::ServerStatus);
        assert_eq!(action, UpsertAction::Edit(900));
        // Payload content differs every tick; a delivered edit reports the
        // edited message, a failed one reports nothing - neither moves the id.
        let outcome =
            if i % 2 == 0 { SendOutcome::Delivered(900) } else { SendOutcome::SendFailed };
        commit_outcome(&mut d, Target::ServerStatus, action, outcome);
        assert_eq!(d.get(Target::ServerStatus), Some(900));
    }
}

#[test]
fn failure_of_one_target_never_touches_the_other() {
    let mut d = DataJson::new();
    for tick in 0..5 {
        // Target A: the server roster endpoint is down, its sends all fail.
        let a = plan_upsert(&d, Target::ServerStatus);
        assert_eq!(a, UpsertAction::Create);
        commit_outcome(&mut d, Target::ServerStatus, a, SendOutcome::SendFailed);
        // Target B: the platform monitor succeeds from the first tick on.
        let b = plan_upsert(&d, Target::CfxStatus);
        let outcome = match b {
            UpsertAction::Create => SendOutcome::Delivered(1000),
            UpsertAction::Edit(id) => SendOutcome::Delivered(id),
        };
        commit_outcome(&mut d, Target::CfxStatus, b, outcome);
        // B's id is set by tick 1 and stable afterward; A never disturbs it.
        assert_eq!(d.get(Target::CfxStatus), Some(1000), "tick {}", tick);
        assert_eq!(d.get(Target::ServerStatus), None);
    }
}

#[test]
fn empty_component_list_renders_global_row_only() {
    let snap = ComponentsSnapshot { components: vec![] };
    let p = render_cfx_status(&Ok(snap), false, 5);
    assert_eq!(p.fields.len(), 1);
    assert_eq!(p.fields[0].label, "Globális Státusz:");
    assert_eq!(p.fields[0].value, "✅ Elérhető");
    assert_eq!(p.color, SUCCESS_COLOR);
}

#[test]
fn truncation_counts_characters_not_bytes() {
    let name = "áéíóúöüőű_xyz";
    assert_eq!(name.chars().count(), 13);
    assert_eq!(truncate(name, 12), "áéíóúöüőű_xy");

    let players = vec![player("őőőőőőőőőőőőő", 1)];
    let (_, c1, _) = player_columns(&players);
    assert_eq!(c1, "őőőőőőőőőőőő *(1ms)*\n");
}
