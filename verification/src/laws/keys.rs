//! Keys, as they are used: what it takes to bring about an action, and what
//! typing a text comes to.
use crate::dashboard::{self, Effect, Key, Mode, ModeView, Screen};
use crate::laws::texts;
use crate::telemetry::ErrorReport;
use crate::text;
use vstd::prelude::*;

verus! {

/// Every action takes its own key in its own mode.
pub proof fn actions_have_their_keys(s: Screen, key: Key, anonymizing: bool)
    ensures
        ({
            let effect = dashboard::pressed(s, key, anonymizing).1;
            &&& effect == Effect::CheckNow <==> s.mode == ModeView::Normal && key == Key::Char('c')
            &&& effect == Effect::StopDnsShim <==> s.mode == ModeView::Normal && key == Key::Char(
                'n',
            ) && s.dns is Some
            &&& effect == Effect::DisableScoped <==> s.mode == ModeView::ConfirmDisable && key
                == Key::Char('s')
            &&& effect == Effect::DisableRadical <==> s.mode == ModeView::ConfirmDisable && key
                == Key::Char('r')
            &&& effect is TryAddBridge <==> (s.mode matches ModeView::AddBridge(buffer) && key
                == Key::Enter && !texts::all_white(buffer))
            &&& effect is EnableScoped <==> (s.mode matches ModeView::EnterScopedUid(buffer) && key
                == Key::Enter && text::u32_of(text::trim_text(buffer)) is Some)
            &&& effect is StartDnsShim <==> s.mode is EnterDnsAddr && key == Key::Enter
        }),
{
    if let ModeView::AddBridge(buffer) = s.mode {
        texts::trimming_empties_white(buffer);
    }
}

/// What was typed is what is acted on: a bridge line as it stands, a user as the
/// number that it is, an address without the white space around it.
pub proof fn actions_are_about_what_was_typed(s: Screen, anonymizing: bool)
    ensures
        match dashboard::pressed(s, Key::Enter, anonymizing).1 {
            Effect::TryAddBridge(line) => s.mode == ModeView::AddBridge(line),
            Effect::EnableScoped(uid) => s.mode matches ModeView::EnterScopedUid(buffer)
                && text::u32_of(text::trim_text(buffer)) == Some(uid),
            Effect::StartDnsShim { typed, address } => s.mode == ModeView::EnterDnsAddr(typed)
                && address == text::trim_text(typed),
            effect => effect == Effect::Nothing,
        },
{
}

/// Commands and the menu open the modes that are named after them, with nothing
/// typed yet but the usual address.
pub proof fn modes_are_opened(s: Screen, anonymizing: bool)
    ensures
        s.mode == ModeView::Normal ==> {
            &&& dashboard::pressed(s, Key::Char('a'), anonymizing) == (
                (Screen { mode: ModeView::AddBridge(seq![]), ..s }),
                Effect::Nothing,
            )
            &&& dashboard::pressed(s, Key::Char('k'), anonymizing) == (
                (Screen { mode: ModeView::KillSwitchMenu, ..s }),
                Effect::Nothing,
            )
            &&& dashboard::pressed(s, Key::Char('d'), anonymizing) == (
                (Screen { mode: ModeView::ConfirmDisable, ..s }),
                Effect::Nothing,
            )
            &&& s.dns is None ==> dashboard::pressed(s, Key::Char('n'), anonymizing) == (
                (Screen { mode: ModeView::EnterDnsAddr("127.0.0.1:9535"@), ..s }),
                Effect::Nothing,
            )
            &&& !anonymizing ==> dashboard::pressed(s, Key::Char('t'), anonymizing) == (
                (Screen { mode: ModeView::ConfirmFullAnon, ..s }),
                Effect::Nothing,
            )
        },
        s.mode == ModeView::KillSwitchMenu ==> {
            &&& dashboard::pressed(s, Key::Char('s'), anonymizing) == (
                (Screen { mode: ModeView::EnterScopedUid(seq![]), ..s }),
                Effect::Nothing,
            )
            &&& dashboard::pressed(s, Key::Char('r'), anonymizing) == (
                (Screen { mode: ModeView::ConfirmRadicalEnable, ..s }),
                Effect::Nothing,
            )
        },
{
}

/// An action ends what was going on: the keys are commands again.
pub proof fn actions_go_back_to_commands(s: Screen, key: Key, anonymizing: bool)
    ensures
        dashboard::pressed(s, key, anonymizing).1 != Effect::Nothing ==> dashboard::pressed(
            s,
            key,
            anonymizing,
        ).0.mode == ModeView::Normal,
        key == Key::Enter && (s.mode is AddBridge || s.mode is EnterScopedUid || s.mode
            is EnterDnsAddr) ==> dashboard::pressed(s, key, anonymizing).0.mode
            == ModeView::Normal,
{
}

/// Keys without a meaning change nothing.
pub proof fn other_keys_do_nothing(s: Screen, key: Key, anonymizing: bool)
    requires
        match s.mode {
            ModeView::Normal => match key {
                Key::Char(c) => c != 'q' && c != 'c' && c != 'a' && c != 'n' && c != 'k' && c != 'd'
                    && c != 't',
                Key::Esc => false,
                _ => true,
            },
            ModeView::ConfirmDisable | ModeView::KillSwitchMenu => match key {
                Key::Char(c) => c != 's' && c != 'r',
                Key::Esc => false,
                _ => true,
            },
            ModeView::ConfirmRadicalEnable | ModeView::ConfirmFullAnon => match key {
                Key::Char(c) => c != 'y',
                Key::Esc => false,
                _ => true,
            },
            _ => key == Key::Other,
        },
    ensures
        dashboard::pressed(s, key, anonymizing) == (s, Effect::Nothing),
{
}

/// What a key brings about is said in the status line; a key that brings about
/// nothing leaves it as it is, but for cancelling and for what cannot be used.
pub proof fn keys_are_acknowledged(s: Screen, key: Key, anonymizing: bool)
    ensures
        ({
            let (after, effect) = dashboard::pressed(s, key, anonymizing);
            match effect {
                Effect::CheckNow => after.status == "requested an immediate bridge health check"@,
                Effect::StopDnsShim => after.status == "DNS shim stopped"@,
                Effect::DisableFullAnon => after.status == "stopping full anonymization..."@,
                Effect::EnableFullAnon => after.status == "starting full anonymization..."@,
                Effect::EnableRadical => after.status == "enabling radical kill switch..."@,
                Effect::TryAddBridge(_) => after.status
                    == "checking new bridge... (watch the candidates table)"@,
                Effect::Nothing => match typing(s.mode) {
                    Some(buffer) => if key == Key::Esc {
                        after.status == "cancelled"@
                    } else if key != Key::Enter {
                        after.status == s.status
                    } else if s.mode is AddBridge {
                        after.status == "cancelled (empty bridge line)"@
                    } else {
                        texts::between(after.status, "'"@, "' is not a valid UID, cancelled"@)
                            == Some(buffer)
                    },
                    None => after.status == if key == Key::Esc && s.mode != ModeView::Normal {
                        "cancelled"@
                    } else {
                        s.status
                    },
                },
                _ => after.status == s.status,
            }
        }),
{
    if let ModeView::EnterScopedUid(buffer) = s.mode {
        texts::between_is_found("'"@, buffer, "' is not a valid UID, cancelled"@);
    }
}

/// Where the DNS shim listens is forgotten when it is stopped, and by no other
/// key.
pub proof fn only_stopping_forgets_dns(s: Screen, key: Key, anonymizing: bool)
    ensures
        dashboard::pressed(s, key, anonymizing).0.dns == if dashboard::pressed(
            s,
            key,
            anonymizing,
        ).1 == Effect::StopDnsShim {
            None
        } else {
            s.dns
        },
{
}

/// What is being typed.
pub open spec fn typing(mode: ModeView) -> Option<Seq<char>> {
    match mode {
        ModeView::AddBridge(buffer) => Some(buffer),
        ModeView::EnterScopedUid(buffer) => Some(buffer),
        ModeView::EnterDnsAddr(buffer) => Some(buffer),
        _ => None,
    }
}

/// The dashboard once a text was typed, one key for each character.
pub open spec fn after_typing(s: Screen, keys: Seq<char>, anonymizing: bool) -> Screen
    decreases keys.len(),
{
    if keys.len() == 0 {
        s
    } else {
        dashboard::pressed(
            after_typing(s, keys.drop_last(), anonymizing),
            Key::Char(keys.last()),
            anonymizing,
        ).0
    }
}

/// Backspace takes back the character that was typed last.
pub proof fn backspace_undoes_typing(s: Screen, c: char, anonymizing: bool)
    requires
        typing(s.mode) is Some,
        s.mode is EnterScopedUid ==> '0' <= c <= '9',
    ensures
        dashboard::pressed(
            dashboard::pressed(s, Key::Char(c), anonymizing).0,
            Key::Backspace,
            anonymizing,
        ) == (s, Effect::Nothing),
{
    let buffer = typing(s.mode)->Some_0;
    assert(buffer.push(c).drop_last() == buffer);
}

/// Backspace with nothing typed changes nothing.
pub proof fn backspace_stops_at_the_start(s: Screen, anonymizing: bool)
    requires
        typing(s.mode) == Some(Seq::<char>::empty()),
    ensures
        dashboard::pressed(s, Key::Backspace, anonymizing) == (s, Effect::Nothing),
{
}

/// A text that is typed stands behind what was typed before.
pub proof fn typed_text_is_kept(s: Screen, keys: Seq<char>, anonymizing: bool)
    requires
        typing(s.mode) is Some,
        s.mode is EnterScopedUid ==> texts::all_digits(keys),
    ensures
        ({
            let after = after_typing(s, keys, anonymizing);
            &&& typing(after.mode) == Some(typing(s.mode)->Some_0 + keys)
            &&& after.mode is AddBridge == s.mode is AddBridge
            &&& after.mode is EnterScopedUid == s.mode is EnterScopedUid
            &&& after.status == s.status
            &&& after.dns == s.dns
        }),
    decreases keys.len(),
{
    let buffer = typing(s.mode)->Some_0;
    if keys.len() == 0 {
        assert(buffer + keys == buffer);
    } else {
        let front = keys.drop_last();
        if s.mode is EnterScopedUid {
            assert forall|i: int| 0 <= i < front.len() implies '0' <= #[trigger] front[i]
                <= '9' by {
                assert(front[i] == keys[i]);
            }
            assert('0' <= keys[keys.len() - 1] <= '9');
        }
        typed_text_is_kept(s, front, anonymizing);
        assert(buffer + keys == (buffer + front).push(keys.last()));
    }
}

/// Typing a bridge line and Enter tries that bridge.
pub proof fn typed_bridge_is_tried(s: Screen, line: Seq<char>, anonymizing: bool)
    requires
        s.mode == ModeView::Normal,
        !texts::all_white(line),
    ensures
        ({
            let opened = dashboard::pressed(s, Key::Char('a'), anonymizing).0;
            dashboard::pressed(after_typing(opened, line, anonymizing), Key::Enter, anonymizing).1
                == Effect::TryAddBridge(line)
        }),
{
    let opened = dashboard::pressed(s, Key::Char('a'), anonymizing).0;
    typed_text_is_kept(opened, line, anonymizing);
    assert(Seq::<char>::empty() + line == line);
    texts::trimming_empties_white(line);
}

/// Typing a user's number and Enter confines that user.
pub proof fn typed_user_is_confined(s: Screen, uid: u32, anonymizing: bool)
    requires
        s.mode == ModeView::Normal,
    ensures
        ({
            let menu = dashboard::pressed(s, Key::Char('k'), anonymizing).0;
            let opened = dashboard::pressed(menu, Key::Char('s'), anonymizing).0;
            let keys = text::decimal_text(uid as nat);
            dashboard::pressed(after_typing(opened, keys, anonymizing), Key::Enter, anonymizing).1
                == Effect::EnableScoped(uid)
        }),
{
    let menu = dashboard::pressed(s, Key::Char('k'), anonymizing).0;
    let opened = dashboard::pressed(menu, Key::Char('s'), anonymizing).0;
    let keys = text::decimal_text(uid as nat);
    texts::decimals_read_back(uid as nat);
    texts::number_lines_are_read(uid);
    typed_text_is_kept(opened, keys, anonymizing);
    assert(Seq::<char>::empty() + keys == keys);
}

/// The help line names the keys that are of use in its mode.
pub proof fn help_names_the_keys(mode: Mode)
    ensures
        mode.help() == match mode {
            Mode::Normal => "q quit   a add bridge   c check bridge now   n toggle DNS shim   k enable a kill switch   d disable a kill switch   t toggle full anonymization"@,
            Mode::ConfirmDisable => "s disable scoped   r disable radical   Esc cancel"@,
            Mode::AddBridge { .. } => "type a Bridge line   Enter submit   Esc cancel"@,
            Mode::KillSwitchMenu => "s enable scoped (asks for a UID)   r enable radical (asks to confirm)   Esc cancel"@,
            Mode::EnterScopedUid { .. } => "type the UID to confine to loopback   Enter apply   Esc cancel"@,
            Mode::ConfirmRadicalEnable => "y confirm (blocks ALL non-loopback traffic for 5 min, auto-reverts)   Esc cancel"@,
            Mode::EnterDnsAddr { .. } => "type a bind address (e.g. 127.0.0.1:9535)   Enter apply   Esc cancel"@,
            Mode::ConfirmFullAnon => "y confirm (routes ALL of this machine's traffic through Tor, needs root)   Esc cancel"@,
        },
{
}

/// The last error that is shown is the message of the last report.
pub proof fn reports_are_shown(report: Option<ErrorReport>)
    ensures
        match report {
            Some(r) => dashboard::report_text(report) == Some(r.message@),
            None => dashboard::report_text(report) is None,
        },
{
}

/// The bottom line shows what is being typed, else the last error, else the last
/// message.
pub proof fn bottom_line_shows_what_counts(s: Screen, last_error: Option<Seq<char>>)
    ensures
        ({
            let line = dashboard::bottom_line(s, last_error);
            match typing(s.mode) {
                Some(buffer) => line.len() > buffer.len() && line.last() == '\u{2588}'
                    && line.drop_last().skip(line.len() - 1 - buffer.len()) == buffer,
                None => match last_error {
                    Some(e) => texts::begins_with(line, "ERROR: "@) && line.skip(7) == e,
                    None => line == s.status,
                },
            }
        }),
{
    reveal_strlit("\u{2588}");
    assert("\u{2588}"@ == seq!['\u{2588}']);
    reveal_strlit("ERROR: ");
    let line = dashboard::bottom_line(s, last_error);
    match s.mode {
        ModeView::AddBridge(buffer) => {
            assert(line.drop_last().skip(line.len() - 1 - buffer.len()) =~= buffer);
        },
        ModeView::EnterScopedUid(buffer) => {
            assert(line.drop_last().skip(line.len() - 1 - buffer.len()) =~= buffer);
        },
        ModeView::EnterDnsAddr(buffer) => {
            assert(line.drop_last().skip(line.len() - 1 - buffer.len()) =~= buffer);
        },
        _ => {
            if let Some(e) = last_error {
                assert(line.take(7) == "ERROR: "@);
                assert(line.skip(7) == e);
            }
        },
    }
}

} // verus!
