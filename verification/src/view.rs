//! What the screen shows, short of drawing it: status labels, selector and
//! card sizes, popup placement, text truncation, and the series a stats card
//! lists once a client or addon is selected.
use vstd::prelude::*;
use crate::app_state::{addon_list, client_list, App};
use crate::frames::opt_view;
use crate::app::{ConnectionState, Focus, HelpPopup, LogState, Tab, LOG_KIND_COUNT, LOG_LEVEL_ROWS};
use crate::stats::{
    client_id_spec, copy_series, get_client_id, get_subscriber_parts, series_view, series_views,
    string_views, subscriber_parts_spec, SeriesView, StatGroup, StatSeries,
};
use crate::text::{chars_of, decimal_chars, decimal_spec, push_str_chars, slice_range, string_from};

verus! {

// ── Status ────────────────────────────────────────────────────────────

/// The status glyph of a connection state.
pub fn status_symbol(state: &ConnectionState) -> (r: &'static str)
    ensures
        r@ == match *state {
            ConnectionState::Idle => "●"@,
            ConnectionState::Pending => "◐"@,
            ConnectionState::Connected { .. } => "✓"@,
            ConnectionState::Disconnected => "✕"@,
        },
{
    match state {
        ConnectionState::Idle => "●",
        ConnectionState::Pending => "◐",
        ConnectionState::Connected { .. } => "✓",
        ConnectionState::Disconnected => "✕",
    }
}

/// The status word of a connection state, shortened in compact layouts.
pub open spec fn status_text_spec(state: ConnectionState, compact: bool) -> Seq<char> {
    match state {
        ConnectionState::Idle => "idle"@,
        ConnectionState::Pending => "pending"@,
        ConnectionState::Connected { version, .. } => if compact {
            "v"@ + decimal_spec(version as nat)
        } else {
            "connected v"@ + decimal_spec(version as nat)
        },
        ConnectionState::Disconnected => if compact {
            "off"@
        } else {
            "disconnected"@
        },
    }
}

pub fn status_text(state: &ConnectionState, compact: bool) -> (r: String)
    ensures
        r@ == status_text_spec(*state, compact),
{
    match state {
        ConnectionState::Idle => "idle".to_owned(),
        ConnectionState::Pending => "pending".to_owned(),
        ConnectionState::Connected { version, .. } => {
            let mut out: Vec<char> = Vec::new();
            if compact {
                push_str_chars(&mut out, "v");
            } else {
                push_str_chars(&mut out, "connected v");
            }
            let d = crate::text::decimal_chars(*version as u64);
            crate::text::extend_chars(&mut out, d.as_slice());
            string_from(out.as_slice())
        },
        ConnectionState::Disconnected => {
            if compact {
                "off".to_owned()
            } else {
                "disconnected".to_owned()
            }
        },
    }
}

/// The short tab label of a stats category.
pub fn compact_category_label(key: &str) -> (r: &'static str)
    ensures
        r@ == (if key@ == "server-performance"@ {
            "Perf"@
        } else if key@ == "memory"@ {
            "Mem"@
        } else if key@ == "scripting"@ {
            "Scr"@
        } else if key@ == "client"@ {
            "Cli"@
        } else {
            "Misc"@
        }),
{
    if crate::text::str_eq(key, "server-performance") {
        "Perf"
    } else if crate::text::str_eq(key, "memory") {
        "Mem"
    } else if crate::text::str_eq(key, "scripting") {
        "Scr"
    } else if crate::text::str_eq(key, "client") {
        "Cli"
    } else {
        "Misc"
    }
}

// ── Sizes ─────────────────────────────────────────────────────────────

/// `v` pulled into `lo ..= hi`.
pub open spec fn clamp_int(v: int, lo: int, hi: int) -> int {
    if v < lo {
        lo
    } else if v > hi {
        hi
    } else {
        v
    }
}

/// Total of the lengths (in bytes) of the IDs, two columns each added.
pub open spec fn ids_width(ids: Seq<Seq<char>>) -> nat
    decreases ids.len(),
{
    if ids.len() == 0 {
        0
    } else {
        ids_width(ids.drop_last()) + crate::text::byte_len(ids.last()) + 2
    }
}

proof fn lemma_ids_width_prefix(ids: Seq<Seq<char>>, i: int)
    requires
        0 <= i <= ids.len(),
    ensures
        ids_width(ids.take(i)) <= ids_width(ids),
    decreases ids.len() - i,
{
    if i < ids.len() {
        lemma_ids_width_prefix(ids, i + 1);
        assert(ids.take(i + 1).drop_last() =~= ids.take(i));
    } else {
        assert(ids.take(i) =~= ids);
    }
}

fn sum_ids_width(ids: &Vec<String>) -> (r: usize)
    requires
        ids_width(string_views(ids@)) <= usize::MAX,
    ensures
        r == ids_width(string_views(ids@)),
{
    let ghost v = string_views(ids@);
    let mut total: usize = 0;
    let mut i: usize = 0;
    while i < ids.len()
        invariant
            v == string_views(ids@),
            ids_width(v) <= usize::MAX,
            0 <= i <= ids@.len(),
            total == ids_width(v.take(i as int)),
        decreases ids@.len() - i,
    {
        proof {
            assert(v.take(i + 1).drop_last() =~= v.take(i as int));
            assert(v.take(i + 1).last() == ids@[i as int]@);
            lemma_ids_width_prefix(v, i + 1);
        }
        let w = crate::text::byte_len_exec(ids[i].as_str());
        total = total + w + 2;
        i += 1;
    }
    assert(v.take(ids@.len() as int) =~= v);
    total
}

/// Width of the client selector: four columns per client when compact,
/// otherwise the IDs themselves.
pub fn client_selector_width(clients: &Vec<String>, compact: bool) -> (r: u16)
    requires
        clients@.len() * 4 + 3 <= usize::MAX,
        ids_width(string_views(clients@)) + 10 <= usize::MAX,
    ensures
        r == (if compact {
            clamp_int((2 + clients@.len() * 4 + 1) as int, 8, 30)
        } else {
            clamp_int((8 + ids_width(string_views(clients@)) + 2) as int, 12, 50)
        }),
{
    let v: usize = if compact {
        2 + clients.len() * 4 + 1
    } else {
        8 + sum_ids_width(clients) + 2
    };
    let (lo, hi): (usize, usize) = if compact {
        (8, 30)
    } else {
        (12, 50)
    };
    let c = if v < lo {
        lo
    } else if v > hi {
        hi
    } else {
        v
    };
    c as u16
}

/// Width of the addon selector: four columns per addon when compact,
/// otherwise the IDs themselves.
pub fn addon_selector_width(addons: &Vec<String>, compact: bool) -> (r: u16)
    requires
        addons@.len() * 4 + 4 <= usize::MAX,
        ids_width(string_views(addons@)) + 8 <= usize::MAX,
    ensures
        r == (if compact {
            clamp_int((4 + addons@.len() * 4) as int, 8, 34)
        } else {
            clamp_int((8 + ids_width(string_views(addons@))) as int, 14, 56)
        }),
{
    let v: usize = if compact {
        4 + addons.len() * 4
    } else {
        8 + sum_ids_width(addons)
    };
    let (lo, hi): (usize, usize) = if compact {
        (8, 34)
    } else {
        (14, 56)
    };
    let c = if v < lo {
        lo
    } else if v > hi {
        hi
    } else {
        v
    };
    c as u16
}

/// Rows a stats card takes: borders and title plus one row per series (at
/// least one); a property table needs at least four.
pub open spec fn card_height_spec(name: Seq<char>, count: nat, table_mode: bool) -> int {
    let rows = if count > 1 {
        count as int
    } else {
        1
    };
    let h = (3 + rows) % 0x10000;
    if table_mode && name == "dynamic_property_values"@ {
        if h < 4 {
            4
        } else {
            h
        }
    } else {
        if h < 3 {
            3
        } else {
            h
        }
    }
}

pub fn card_height(group: &StatGroup, compact: bool, table_mode: bool) -> (r: u16)
    requires
        group.series@.len() + 3 <= u16::MAX,
    ensures
        r == card_height_spec(group.name@, group.series@.len(), table_mode),
{
    let rows: u16 = if group.series.len() > 1 {
        group.series.len() as u16
    } else {
        1
    };
    let h: u16 = 3 + rows;
    if table_mode && crate::text::str_eq(group.name.as_str(), "dynamic_property_values") {
        if h < 4 {
            4
        } else {
            h
        }
    } else {
        if h < 3 {
            3
        } else {
            h
        }
    }
}

/// The first `max_width` characters of `s`.
pub fn truncate(s: &str, max_width: usize) -> (r: String)
    ensures
        r@ == (if s@.len() <= max_width {
            s@
        } else {
            s@.take(max_width as int)
        }),
{
    if max_width == 0 {
        return String::new();
    }
    let cs = chars_of(s);
    if cs.len() <= max_width {
        string_from(cs.as_slice())
    } else {
        let t = slice_range(cs.as_slice(), 0, max_width);
        assert(t@ =~= s@.take(max_width as int));
        string_from(t.as_slice())
    }
}

/// Columns a string takes: one per character.
pub fn display_width(s: &str) -> (r: usize)
    ensures
        r == s@.len(),
{
    let cs = chars_of(s);
    cs.len()
}

// ── Popup placement ───────────────────────────────────────────────────

/// A screen rectangle.
#[derive(Debug, Clone, Copy, PartialEq, Eq, Structural)]
pub struct Rect {
    pub x: u16,
    pub y: u16,
    pub width: u16,
    pub height: u16,
}

pub open spec fn sat_sub(a: int, b: int) -> int {
    if a > b {
        a - b
    } else {
        0
    }
}

/// `area` less a one-cell margin all round.
pub open spec fn inset_spec(area: Rect) -> Rect {
    Rect {
        x: (area.x + 1) as u16,
        y: (area.y + 1) as u16,
        width: sat_sub(area.width as int, 2) as u16,
        height: sat_sub(area.height as int, 2) as u16,
    }
}

/// A `width` by `height` rectangle centred in `area`.
pub open spec fn centred_spec(area: Rect, width: int, height: int) -> Rect {
    Rect {
        x: (area.x + sat_sub(area.width as int, width) / 2) as u16,
        y: (area.y + sat_sub(area.height as int, height) / 2) as u16,
        width: width as u16,
        height: height as u16,
    }
}

fn centred(area: Rect, width: u16, height: u16) -> (r: Rect)
    requires
        width <= area.width,
        height <= area.height,
        area.x + area.width <= u16::MAX,
        area.y + area.height <= u16::MAX,
    ensures
        r == centred_spec(area, width as int, height as int),
{
    Rect {
        x: area.x + (area.width - width) / 2,
        y: area.y + (area.height - height) / 2,
        width,
        height,
    }
}

/// Where the plugin list goes: nearly full screen when compact or narrow,
/// otherwise a centred box up to 70 wide, sized to the list.
pub fn plugin_popup_area(area: Rect, plugin_count: usize, compact: bool) -> (r: Rect)
    requires
        area.x + area.width <= u16::MAX,
        area.y + area.height <= u16::MAX,
        area.x < u16::MAX,
        area.y < u16::MAX,
        !(compact || area.width < 60) ==> area.height >= 12 && (plugin_count % 0x10000) + 4
            <= u16::MAX,
    ensures
        compact || area.width < 60 ==> r == inset_spec(area),
        !(compact || area.width < 60) ==> r == centred_spec(
            area,
            if area.width < 70 {
                area.width as int
            } else {
                70
            },
            clamp_int((plugin_count % 0x10000) + 4, 8, area.height - 4),
        ),
{
    if compact || area.width < 60 {
        return Rect {
            x: area.x + 1,
            y: area.y + 1,
            width: if area.width >= 2 {
                area.width - 2
            } else {
                0
            },
            height: if area.height >= 2 {
                area.height - 2
            } else {
                0
            },
        };
    }
    let width: u16 = if area.width < 70 {
        area.width
    } else {
        70
    };
    let wanted: u16 = (plugin_count % 65536) as u16 + 4;
    let hi: u16 = area.height - 4;
    let height: u16 = if wanted < 8 {
        8
    } else if wanted > hi {
        hi
    } else {
        wanted
    };
    centred(area, width, height)
}

/// Where a single-line input popup goes: nearly full screen (at least
/// `height` tall) when compact or narrow, otherwise a centred box.
pub fn input_popup_area(area: Rect, width: u16, height: u16, compact: bool) -> (r: Rect)
    requires
        area.x + area.width <= u16::MAX,
        area.y + area.height <= u16::MAX,
        area.x < u16::MAX,
        area.y < u16::MAX,
        width + 4 <= u16::MAX,
    ensures
        compact || area.width < width + 4 ==> r == (Rect {
            height: if sat_sub(area.height as int, 2) < height {
                height
            } else {
                sat_sub(area.height as int, 2) as u16
            },
            ..inset_spec(area)
        }),
        !(compact || area.width < width + 4) ==> r == centred_spec(
            area,
            if width < area.width - 4 {
                width as int
            } else {
                area.width - 4
            },
            if height < sat_sub(area.height as int, 4) {
                height as int
            } else {
                sat_sub(area.height as int, 4)
            },
        ),
{
    if compact || area.width < width + 4 {
        let h: u16 = if area.height >= 2 {
            area.height - 2
        } else {
            0
        };
        Rect {
            x: area.x + 1,
            y: area.y + 1,
            width: if area.width >= 2 {
                area.width - 2
            } else {
                0
            },
            height: if h < height {
                height
            } else {
                h
            },
        }
    } else {
        let w: u16 = if width < area.width - 4 {
            width
        } else {
            area.width - 4
        };
        let hmax: u16 = if area.height >= 4 {
            area.height - 4
        } else {
            0
        };
        let h: u16 = if height < hmax {
            height
        } else {
            hmax
        };
        centred(area, w, h)
    }
}

/// Where the filter popup goes: room for every toggle row plus five, at
/// least eight rows; nearly full screen when compact or narrow, otherwise a
/// centred box 34 wide.
pub fn filter_popup_area(area: Rect, compact: bool) -> (r: Rect)
    requires
        area.x + area.width <= u16::MAX,
        area.y + area.height <= u16::MAX,
        area.x < u16::MAX,
        area.y < u16::MAX,
        area.height >= 12,
    ensures
        ({
            let height = clamp_int(LOG_KIND_COUNT + LOG_LEVEL_ROWS + 5, 8, area.height - 4);
            &&& (compact || area.width < 50) ==> r == (Rect {
                height: if area.height - 2 < height {
                    height as u16
                } else {
                    (area.height - 2) as u16
                },
                ..inset_spec(area)
            })
            &&& !(compact || area.width < 50) ==> r == centred_spec(
                area,
                if 34 < area.width - 4 {
                    34
                } else {
                    area.width - 4
                },
                if height < area.height - 4 {
                    height
                } else {
                    area.height - 4
                },
            )
        }),
{
    let wanted: u16 = (LOG_KIND_COUNT + LOG_LEVEL_ROWS + 5) as u16;
    let hi: u16 = area.height - 4;
    let height: u16 = if wanted < 8 {
        8
    } else if wanted > hi {
        hi
    } else {
        wanted
    };
    if compact || area.width < 50 {
        let h: u16 = area.height - 2;
        Rect {
            x: area.x + 1,
            y: area.y + 1,
            width: if area.width >= 2 {
                area.width - 2
            } else {
                0
            },
            height: if h < height {
                height
            } else {
                h
            },
        }
    } else {
        let width: u16 = if 34 < area.width - 4 {
            34
        } else {
            area.width - 4
        };
        let h: u16 = if height < hi {
            height
        } else {
            hi
        };
        centred(area, width, h)
    }
}

// ── Card contents ─────────────────────────────────────────────────────

pub open spec fn str_opt_view(o: Option<&str>) -> Option<Seq<char>> {
    match o {
        Some(s) => Some(s@),
        None => None,
    }
}

/// Keeps the series of `client` (all series when none is selected).
pub open spec fn of_client(client: Option<Seq<char>>) -> spec_fn(SeriesView) -> bool {
    |v: SeriesView| match client {
        Some(c) => client_id_spec(v.0) == Some(c),
        None => true,
    }
}

/// The series the client-stats card lists; other groups are unchanged.
pub fn filter_client_group(group: &StatGroup, selected_client: Option<&str>) -> (r: StatGroup)
    ensures
        r.name@ == group.name@,
        group.name@ != "client_stats"@ ==> series_views(r.series@) == series_views(group.series@),
        group.name@ == "client_stats"@ ==> series_views(r.series@) == series_views(
            group.series@,
        ).filter(of_client(str_opt_view(selected_client))),
{
    let ghost sel = str_opt_view(selected_client);
    let ghost keep = of_client(sel);
    let ghost all = series_views(group.series@);
    let is_clients = crate::text::str_eq(group.name.as_str(), "client_stats");
    let mut out: Vec<StatSeries> = Vec::new();
    let mut i: usize = 0;
    proof {
        assert(all.take(0) =~= Seq::<SeriesView>::empty());
        assert(all.take(0).filter(keep) =~= Seq::<SeriesView>::empty()) by {
            reveal(Seq::filter);
        }
    }
    while i < group.series.len()
        invariant
            all == series_views(group.series@),
            keep == of_client(sel),
            sel == str_opt_view(selected_client),
            0 <= i <= group.series@.len(),
            is_clients ==> series_views(out@) == all.take(i as int).filter(keep),
            !is_clients ==> series_views(out@) == all.take(i as int),
        decreases group.series@.len() - i,
    {
        let s = &group.series[i];
        proof {
            assert(all.take(i + 1) =~= all.take(i as int).push(series_view(*s)));
            all.take(i as int).lemma_filter_push(series_view(*s), keep);
        }
        let wanted = if !is_clients {
            true
        } else {
            match selected_client {
                Some(c) => match get_client_id(s.path.as_str()) {
                    Some(id) => {
                        let same = crate::text::str_eq(id.as_str(), c);
                        assert(keep(series_view(*s)) == (client_id_spec(s.path@) == Some(c@)));
                        same
                    },
                    None => {
                        assert(keep(series_view(*s)) == (client_id_spec(s.path@) == Some(c@)));
                        false
                    },
                },
                None => true,
            }
        };
        proof {
            if is_clients {
                assert(keep(series_view(*s)) == wanted);
            }
        }
        if wanted {
            let ghost before = series_views(out@);
            out.push(copy_series(s));
            assert(series_views(out@) =~= before.push(series_view(*s)));
        }
        i += 1;
    }
    assert(all.take(group.series@.len() as int) =~= all);
    StatGroup { name: group.name.clone(), series: out }
}


/// Keeps the series of `addon` (all series when none is selected).
pub open spec fn of_addon(addon: Option<Seq<char>>) -> spec_fn(SeriesView) -> bool {
    |v: SeriesView| match addon {
        Some(a) => match subscriber_parts_spec(v.0) {
            Some(p) => p.0 == a,
            None => false,
        },
        None => true,
    }
}

/// A subscriber series shown under its event name (its path keeps a
/// synthetic group prefix so the short name is the full event).
pub open spec fn as_event_row(v: SeriesView) -> SeriesView {
    match subscriber_parts_spec(v.0) {
        Some(p) => ("subscriber."@ + p.1, p.1, v.2, v.3),
        None => v,
    }
}

/// The series the subscriber card lists, each under its event name; other
/// groups are unchanged.
pub fn filter_addon_group(group: &StatGroup, selected_addon: Option<&str>) -> (r: StatGroup)
    ensures
        r.name@ == group.name@,
        group.name@ != "fine_grained_subscribers"@ ==> series_views(r.series@) == series_views(
            group.series@,
        ),
        group.name@ == "fine_grained_subscribers"@ ==> series_views(r.series@) == series_views(
            group.series@,
        ).filter(of_addon(str_opt_view(selected_addon))).map_values(
            |v: SeriesView| as_event_row(v),
        ),
{
    let ghost sel = str_opt_view(selected_addon);
    let ghost keep = of_addon(sel);
    let ghost all = series_views(group.series@);
    let is_subscribers = crate::text::str_eq(group.name.as_str(), "fine_grained_subscribers");
    let mut out: Vec<StatSeries> = Vec::new();
    let mut i: usize = 0;
    proof {
        assert(all.take(0) =~= Seq::<SeriesView>::empty());
        assert(all.take(0).filter(keep) =~= Seq::<SeriesView>::empty()) by {
            reveal(Seq::filter);
        }
        assert(all.take(0).filter(keep).map_values(|v: SeriesView| as_event_row(v))
            =~= Seq::<SeriesView>::empty());
    }
    while i < group.series.len()
        invariant
            all == series_views(group.series@),
            keep == of_addon(sel),
            sel == str_opt_view(selected_addon),
            0 <= i <= group.series@.len(),
            is_subscribers ==> series_views(out@) == all.take(i as int).filter(keep).map_values(
                |v: SeriesView| as_event_row(v),
            ),
            !is_subscribers ==> series_views(out@) == all.take(i as int),
        decreases group.series@.len() - i,
    {
        let s = &group.series[i];
        let ghost before = series_views(out@);
        proof {
            assert(all.take(i + 1) =~= all.take(i as int).push(series_view(*s)));
            all.take(i as int).lemma_filter_push(series_view(*s), keep);
        }
        if !is_subscribers {
            out.push(copy_series(s));
            assert(series_views(out@) =~= before.push(series_view(*s)));
        } else {
            let parts = get_subscriber_parts(s.path.as_str());
            let wanted = match selected_addon {
                Some(a) => match &parts {
                    Some((id, _)) => crate::text::str_eq(id.as_str(), a),
                    None => false,
                },
                None => true,
            };
            assert(keep(series_view(*s)) == wanted);
            if wanted {
                let mut row = copy_series(s);
                match parts {
                    Some((_, event)) => {
                        let mut path: Vec<char> = Vec::new();
                        push_str_chars(&mut path, "subscriber.");
                        push_str_chars(&mut path, event.as_str());
                        assert(path@ =~= "subscriber."@ + event@);
                        row = StatSeries {
                            name: event,
                            path: string_from(path.as_slice()),
                            ticks: row.ticks,
                            values: row.values,
                        };
                    },
                    None => {},
                }
                assert(series_view(row) == as_event_row(series_view(*s)));
                out.push(row);
                let ghost f = all.take(i as int).filter(keep);
                assert(f.push(series_view(*s)).map_values(|v: SeriesView| as_event_row(v))
                    =~= f.map_values(|v: SeriesView| as_event_row(v)).push(
                    as_event_row(series_view(*s)),
                ));
                assert(series_views(out@) =~= before.push(series_view(row)));
            }
        }
        i += 1;
    }
    assert(all.take(group.series@.len() as int) =~= all);
    StatGroup { name: group.name.clone(), series: out }
}


// ── Scroll windows ────────────────────────────────────────────────────

/// The first row of a window of `height` rows over `total` rows that keeps
/// row `selected` in view, starting from the remembered `offset`: moved up
/// to a selection above the window, down to one below it, and never past
/// the last full window.
pub open spec fn window_keeping(selected: int, offset: int, total: int, height: int) -> int {
    let max = if total > height {
        total - height
    } else {
        0
    };
    let off = if offset < max {
        offset
    } else {
        max
    };
    let moved = if selected < off {
        selected
    } else if selected >= off + height {
        selected - height + 1
    } else {
        off
    };
    if moved < max {
        moved
    } else {
        max
    }
}

/// The first plugin row shown by the target popup: the window of
/// `visible_height` rows that keeps the selected plugin in view.
pub fn popup_window(selected: usize, scroll_offset: usize, total: usize, visible_height: usize) -> (offset:
    usize)
    ensures
        offset == window_keeping(selected as int, scroll_offset as int, total as int, visible_height as int),
{
    let max_offset = if total > visible_height {
        total - visible_height
    } else {
        0
    };
    let mut off = if scroll_offset < max_offset {
        scroll_offset
    } else {
        max_offset
    };
    if selected < off {
        off = selected;
    } else if off as u128 + visible_height as u128 <= selected as u128 {
        let below = selected - visible_height;
        off = if below < usize::MAX {
            below + 1
        } else {
            below
        };
    }
    if off < max_offset {
        off
    } else {
        max_offset
    }
}

/// The first row of the event log's window: the last full window in follow
/// mode or without a selection in the view, else the window that keeps the
/// selection in view.
pub open spec fn log_window_spec(total: int, height: int, selected: Option<usize>, offset: int, follow: bool) -> int {
    let max = if total > height {
        total - height
    } else {
        0
    };
    if total == 0 {
        0
    } else if follow || !(selected matches Some(s) && s < total) {
        max
    } else {
        window_keeping(selected->Some_0 as int, offset, total, height)
    }
}

/// The event log's title: the selected position (0 without one) over the
/// filtered count, a filter mark and, in the full layout, a follow mark.
pub open spec fn log_title_spec(total: int, selected: Option<usize>, filtered: bool, follow: bool, compact: bool) -> Seq<char> {
    if total == 0 {
        if compact {
            "Log 0/0"@
        } else {
            " Event Log 0/0 "@
        }
    } else {
        let pos: nat = if selected matches Some(s) && s < total {
            (selected->Some_0 + 1) as nat
        } else {
            0
        };
        if compact {
            "Log "@ + decimal_spec(pos) + "/"@ + decimal_spec(total as nat) + (if filtered {
                "*"@
            } else {
                Seq::empty()
            })
        } else {
            " Event Log "@ + decimal_spec(pos) + "/"@ + decimal_spec(total as nat) + (if filtered {
                " *"@
            } else {
                Seq::empty()
            }) + (if follow {
                " ↓"@
            } else {
                Seq::empty()
            }) + " "@
        }
    }
}

/// The event log's window and title: the first filtered row shown in a
/// window of `visible_height` rows, and the title text.
pub fn event_log_window(
    filtered_total: usize,
    visible_height: usize,
    state: &LogState,
    filtered: bool,
    compact: bool,
) -> (r: (usize, String))
    ensures
        r.0 == log_window_spec(
            filtered_total as int,
            visible_height as int,
            state.selected,
            state.offset as int,
            state.follow,
        ),
        r.1@ == log_title_spec(filtered_total as int, state.selected, filtered, state.follow, compact),
{
    let selected: Option<usize> = match state.selected {
        Some(s) => if s < filtered_total {
            Some(s)
        } else {
            None
        },
        None => None,
    };
    let max_offset = if filtered_total > visible_height {
        filtered_total - visible_height
    } else {
        0
    };
    let offset = if filtered_total == 0 {
        0
    } else if state.follow || selected.is_none() {
        max_offset
    } else {
        popup_window(selected.unwrap(), state.offset, filtered_total, visible_height)
    };
    let mut out: Vec<char> = Vec::new();
    if filtered_total == 0 {
        if compact {
            push_str_chars(&mut out, "Log 0/0");
        } else {
            push_str_chars(&mut out, " Event Log 0/0 ");
        }
    } else {
        let pos: u64 = match selected {
            Some(s) => s as u64 + 1,
            None => 0,
        };
        if compact {
            push_str_chars(&mut out, "Log ");
        } else {
            push_str_chars(&mut out, " Event Log ");
        }
        crate::text::extend_chars(&mut out, decimal_chars(pos).as_slice());
        push_str_chars(&mut out, "/");
        crate::text::extend_chars(&mut out, decimal_chars(filtered_total as u64).as_slice());
        if compact {
            if filtered {
                push_str_chars(&mut out, "*");
            }
        } else {
            if filtered {
                push_str_chars(&mut out, " *");
            }
            if state.follow {
                push_str_chars(&mut out, " ↓");
            }
            push_str_chars(&mut out, " ");
        }
    }
    let ghost t = log_title_spec(filtered_total as int, state.selected, filtered, state.follow, compact);
    assert(out@ =~= t);
    (offset, string_from(out.as_slice()))
}


// ── Footer ────────────────────────────────────────────────────────────

/// `short` in the compact layout, `long` otherwise.
pub open spec fn by_layout(compact: bool, short: Seq<char>, long: Seq<char>) -> Seq<char> {
    if compact {
        short
    } else {
        long
    }
}

/// The key hints the footer shows: those of the open popup or input, else
/// those of the focused panel, the connection state, the tab and the
/// selected statistics category.
pub open spec fn footer_hint_spec(app: App, compact: bool) -> Seq<char> {
    let idle = app.state == ConnectionState::Idle || app.state == ConnectionState::Disconnected;
    let addons = opt_view(app.stats_selected_category) == Some("scripting"@) && addon_list(
        app.stats.series(),
    ).len() > 0;
    let clients = opt_view(app.stats_selected_category) == Some("client"@) && client_list(
        app.stats.series(),
    ).len() > 1;
    if app.error_popup is Some {
        by_layout(compact, "Esc/Ent Dismiss | q Quit"@, " Esc/Enter Dismiss | q Quit "@)
    } else if app.plugin_selection is Some {
        by_layout(
            compact,
            "↑↓ Sel | Ent Ok | Esc Can | q Quit"@,
            " ↑↓ Select | Enter Confirm | Esc Cancel | q Quit "@,
        )
    } else if app.help_popup == HelpPopup::Visible {
        by_layout(compact, "Esc Close | q Quit"@, " Esc Close | q Quit "@)
    } else if app.search_input.open {
        by_layout(compact, "Ent Search | Esc Close"@, " Enter Search | Esc Close "@)
    } else if app.filter_popup.open {
        by_layout(
            compact,
            "↑↓ Sel | Spc/Ent Tog | Esc Close | r Reset"@,
            " ↑/↓ Select | Space/Enter Toggle | Esc Close | r Reset "@,
        )
    } else if app.command_input.open {
        by_layout(compact, "Ent Send | Esc Close | ↑↓ Hist"@, " Enter Send | Esc Close | ↑/↓ History "@)
    } else if app.evaluate_input.open {
        by_layout(compact, "Ent Eval | Esc Close"@, " Enter Evaluate | Esc Close "@)
    } else if app.focus != Focus::Main {
        by_layout(
            compact,
            "Tab Foc | Ent Act | Esc Cls | q Quit"@,
            " Tab/Shift+Tab Focus | Enter Action | Esc Close Sidebar | q Quit | h Help "@,
        )
    } else if idle && app.tab == Tab::Log && !compact {
        " Tab Focus | l/c | / Search | f Filter | ↑/k ↓/j Scroll | q Quit | h Help "@
    } else if idle && app.tab == Tab::Stats && !compact {
        if addons {
            " Tab | l/c | ←/→ Cat | [/] Addon | r Clear stats | 1 Log | 2 Stats | S Sidebar | q Quit | h Help "@
        } else {
            " Tab | l/c | ←/→ Cat | r Clear stats | 1 Log | 2 Stats | S Sidebar | q Quit | h Help "@
        }
    } else if idle && compact && app.tab == Tab::Stats {
        if addons {
            "Tab|l/c|←→Cat|[/]Add|rClr|1/2|S Side|h Help|q Quit"@
        } else {
            "Tab|l/c|←→Cat|rClr|1/2|S Side|h Help|q Quit"@
        }
    } else if idle && compact {
        "Tab | l/c | rClr | 1/2 | S Side | q Quit"@
    } else if app.tab == Tab::Log && !compact {
        " Tab Focus | : Cmd | e Eval | c Clear | / Search | f Filter | r Reset | q Quit "@
    } else if app.tab == Tab::Log {
        "Tab Foc | :Cmd eEval | cClr | / f r q Quit"@
    } else if !compact {
        if clients {
            " Tab | ←/→ Cat | [/] Client | ↑/↓ Scroll | r Clear stats | q Quit | h Help "@
        } else if addons {
            " Tab | ←/→ Cat | [/] Addon | ↑/↓ Scroll | r Clear stats | q Quit | h Help "@
        } else {
            " Tab | ←/→ Cat | ↑/↓ Scroll | r Clear stats | q Quit | h Help "@
        }
    } else if clients {
        "Tab|←→Cat|[/]Cl|↑↓Scr|rClr|h Help|q Quit"@
    } else if addons {
        "Tab|←→Cat|[/]Add|↑↓Scr|rClr|h Help|q Quit"@
    } else {
        "Tab|←→Cat|↑↓Scr|rClr|h Help|q Quit"@
    }
}

fn category_is(app: &App, key: &str) -> (r: bool)
    ensures
        r == (opt_view(app.stats_selected_category) == Some(key@)),
{
    match &app.stats_selected_category {
        Some(k) => crate::text::str_eq(k.as_str(), key),
        None => false,
    }
}

/// The key hints for the footer.
pub fn footer_hint(app: &App, compact: bool) -> (r: &'static str)
    ensures
        r@ == footer_hint_spec(*app, compact),
{
    if app.error_popup.is_some() {
        return if compact { "Esc/Ent Dismiss | q Quit" } else { " Esc/Enter Dismiss | q Quit " };
    }
    if app.plugin_selection.is_some() {
        return if compact {
            "↑↓ Sel | Ent Ok | Esc Can | q Quit"
        } else {
            " ↑↓ Select | Enter Confirm | Esc Cancel | q Quit "
        };
    }
    if app.help_popup == HelpPopup::Visible {
        return if compact { "Esc Close | q Quit" } else { " Esc Close | q Quit " };
    }
    if app.search_input.open {
        return if compact { "Ent Search | Esc Close" } else { " Enter Search | Esc Close " };
    }
    if app.filter_popup.open {
        return if compact {
            "↑↓ Sel | Spc/Ent Tog | Esc Close | r Reset"
        } else {
            " ↑/↓ Select | Space/Enter Toggle | Esc Close | r Reset "
        };
    }
    if app.command_input.open {
        return if compact {
            "Ent Send | Esc Close | ↑↓ Hist"
        } else {
            " Enter Send | Esc Close | ↑/↓ History "
        };
    }
    if app.evaluate_input.open {
        return if compact { "Ent Eval | Esc Close" } else { " Enter Evaluate | Esc Close " };
    }
    if app.focus != Focus::Main {
        return if compact {
            "Tab Foc | Ent Act | Esc Cls | q Quit"
        } else {
            " Tab/Shift+Tab Focus | Enter Action | Esc Close Sidebar | q Quit | h Help "
        };
    }
    let idle = app.state == ConnectionState::Idle || app.state == ConnectionState::Disconnected;
    let log_tab = app.tab == Tab::Log;
    let addons = category_is(app, "scripting") && app.stats.subscriber_addon_ids().len() > 0;
    let clients = category_is(app, "client") && app.stats.client_ids().len() > 1;
    if idle && log_tab && !compact {
        " Tab Focus | l/c | / Search | f Filter | ↑/k ↓/j Scroll | q Quit | h Help "
    } else if idle && !log_tab && !compact {
        if addons {
            " Tab | l/c | ←/→ Cat | [/] Addon | r Clear stats | 1 Log | 2 Stats | S Sidebar | q Quit | h Help "
        } else {
            " Tab | l/c | ←/→ Cat | r Clear stats | 1 Log | 2 Stats | S Sidebar | q Quit | h Help "
        }
    } else if idle && compact && !log_tab {
        if addons {
            "Tab|l/c|←→Cat|[/]Add|rClr|1/2|S Side|h Help|q Quit"
        } else {
            "Tab|l/c|←→Cat|rClr|1/2|S Side|h Help|q Quit"
        }
    } else if idle && compact {
        "Tab | l/c | rClr | 1/2 | S Side | q Quit"
    } else if log_tab && !compact {
        " Tab Focus | : Cmd | e Eval | c Clear | / Search | f Filter | r Reset | q Quit "
    } else if log_tab {
        "Tab Foc | :Cmd eEval | cClr | / f r q Quit"
    } else if !compact {
        if clients {
            " Tab | ←/→ Cat | [/] Client | ↑/↓ Scroll | r Clear stats | q Quit | h Help "
        } else if addons {
            " Tab | ←/→ Cat | [/] Addon | ↑/↓ Scroll | r Clear stats | q Quit | h Help "
        } else {
            " Tab | ←/→ Cat | ↑/↓ Scroll | r Clear stats | q Quit | h Help "
        }
    } else if clients {
        "Tab|←→Cat|[/]Cl|↑↓Scr|rClr|h Help|q Quit"
    } else if addons {
        "Tab|←→Cat|[/]Add|↑↓Scr|rClr|h Help|q Quit"
    } else {
        "Tab|←→Cat|↑↓Scr|rClr|h Help|q Quit"
    }
}

} // verus!
