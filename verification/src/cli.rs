//! What the command line decides: which catalogs apply, which translations a run uses, and
//! how story events are printed.
use vstd::prelude::*;
use crate::asset::join_with;
use crate::localize::{LocaleCatalog, SpecLocale};
use crate::strmap::StrMap;
use crate::text::{chars_of, push_all, seq_view, string_of};
use crate::vm::{rolled_back, SpecEvent, SpecVm, SpecVmError, Vm, VmError, VmEvent};
use crate::presentation::{apply_all, apply_command, commands_from_event, event_commands, PresentationCommand};
use crate::save::{PresentationSnapshot, SpecPresentation};
use crate::story::{continued, selected};


verus! {

impl LocaleCatalog {
    /// A copy with the same locale and messages.
    pub fn duplicate(&self) -> (r: LocaleCatalog)
        ensures
            r@ == self@,
    {
        LocaleCatalog { locale: self.locale.clone(), messages: self.messages.duplicate() }
    }
}

/// Index of the first catalog for `locale`, or the number of catalogs.
pub open spec fn catalog_index(ls: Seq<SpecLocale>, locale: Seq<char>) -> int
    decreases ls.len(),
{
    if ls.len() == 0 {
        0
    } else if catalog_index(ls.drop_last(), locale) < ls.len() - 1 {
        catalog_index(ls.drop_last(), locale)
    } else if ls.last().locale == locale {
        ls.len() - 1
    } else {
        ls.len() as int
    }
}

proof fn lemma_catalog_index(ls: Seq<SpecLocale>, locale: Seq<char>)
    ensures
        0 <= catalog_index(ls, locale) <= ls.len(),
        catalog_index(ls, locale) < ls.len() ==> ls[catalog_index(ls, locale)].locale == locale,
        forall|j: int| 0 <= j < catalog_index(ls, locale) ==> #[trigger] ls[j].locale != locale,
    decreases ls.len(),
{
    if ls.len() > 0 {
        lemma_catalog_index(ls.drop_last(), locale);
        assert forall|j: int| 0 <= j < catalog_index(ls, locale) implies #[trigger] ls[j].locale != locale by {
            if j < ls.len() - 1 {
                assert(ls[j] == ls.drop_last()[j]);
            }
        }
        if catalog_index(ls.drop_last(), locale) < ls.len() - 1 {
            assert(ls[catalog_index(ls, locale)] == ls.drop_last()[catalog_index(ls, locale)]);
        }
    }
}

fn find_catalog(locales: &[LocaleCatalog], locale: &str) -> (r: usize)
    ensures
        r == catalog_index(seq_view(locales@), locale@),
        r <= locales@.len(),
{
    let ghost lv = seq_view(locales@);
    proof {
        lemma_catalog_index(lv, locale@);
    }
    let mut i: usize = 0;
    while i < locales.len()
        invariant
            lv == seq_view(locales@),
            i <= locales@.len(),
            forall|j: int| 0 <= j < i ==> #[trigger] lv[j].locale != locale@,
            0 <= catalog_index(lv, locale@) <= lv.len(),
            catalog_index(lv, locale@) < lv.len() ==> lv[catalog_index(lv, locale@)].locale == locale@,
            forall|j: int| 0 <= j < catalog_index(lv, locale@) ==> #[trigger] lv[j].locale != locale@,
        decreases locales@.len() - i,
    {
        assert(lv[i as int] == locales@[i as int]@);
        if crate::text::str_eq(locales[i].locale.as_str(), locale) {
            proof {
                let c = catalog_index(lv, locale@);
                if c < i {
                    assert(lv[c].locale != locale@);
                } else if c > i {
                    assert(lv[i as int].locale != locale@);
                }
            }
            return i;
        }
        i = i + 1;
    }
    i
}

/// The catalogs a command validates against: all of them, or only the first one for the
/// requested locale; `None` when no catalog has that locale.
pub fn selected_locales(locales: &[LocaleCatalog], locale: Option<&str>) -> (r: Option<Vec<LocaleCatalog>>)
    ensures
        match locale {
            None => r matches Some(v) && seq_view(v@) == seq_view(locales@),
            Some(l) => {
                let k = catalog_index(seq_view(locales@), l@);
                if k < locales@.len() {
                    r matches Some(v) && seq_view(v@) == seq![seq_view(locales@)[k]]
                } else {
                    r is None
                }
            },
        },
{
    match locale {
        None => {
            let mut out: Vec<LocaleCatalog> = Vec::new();
            let mut i: usize = 0;
            while i < locales.len()
                invariant
                    i <= locales@.len(),
                    seq_view(out@) == seq_view(locales@).take(i as int),
                decreases locales@.len() - i,
            {
                let ghost before = seq_view(out@);
                let d = locales[i].duplicate();
                let ghost dv = d@;
                out.push(d);
                assert(seq_view(out@) =~= before.push(dv));
                assert(seq_view(locales@).take(i + 1) =~= seq_view(locales@).take(i as int).push(locales@[i as int]@));
                i = i + 1;
            }
            assert(seq_view(locales@).take(locales@.len() as int) =~= seq_view(locales@));
            Some(out)
        },
        Some(l) => {
            let k = find_catalog(locales, l);
            if k < locales.len() {
                let mut out: Vec<LocaleCatalog> = Vec::new();
                out.push(locales[k].duplicate());
                assert(seq_view(out@) =~= seq![seq_view(locales@)[k as int]]);
                Some(out)
            } else {
                None
            }
        },
    }
}

/// The translations a run uses: the messages of the first catalog for `locale`, or none.
pub fn translations_for(locales: &[LocaleCatalog], locale: &str) -> (r: StrMap<String>)
    ensures
        ({
            let k = catalog_index(seq_view(locales@), locale@);
            r@ == if k < locales@.len() {
                seq_view(locales@)[k].messages
            } else {
                Map::<Seq<char>, Seq<char>>::empty()
            }
        }),
{
    let k = find_catalog(locales, locale);
    if k < locales.len() {
        assert(seq_view(locales@)[k as int] == locales@[k as int]@);
        locales[k].messages.duplicate()
    } else {
        StrMap::new()
    }
}

/// Parts joined with a separator.
pub fn join_strings(parts: &[String], sep: char) -> (r: Vec<char>)
    ensures
        r@ == join_with(seq_view(parts@), sep),
{
    let mut out: Vec<char> = Vec::new();
    let mut i: usize = 0;
    assert(seq_view(parts@).take(0) =~= Seq::<Seq<char>>::empty());
    while i < parts.len()
        invariant
            i <= parts@.len(),
            out@ == join_with(seq_view(parts@).take(i as int), sep),
        decreases parts@.len() - i,
    {
        let ghost pre = seq_view(parts@).take(i + 1);
        assert(pre.drop_last() =~= seq_view(parts@).take(i as int));
        assert(pre.last() == parts@[i as int]@);
        if i > 0 {
            out.push(sep);
        }
        let a = chars_of(parts[i].as_str());
        push_all(&mut out, a.as_slice());
        assert(out@ =~= join_with(pre, sep));
        i = i + 1;
    }
    assert(seq_view(parts@).take(parts@.len() as int) =~= seq_view(parts@));
    out
}

/// The line a headless run prints for an event.
pub open spec fn event_line(e: SpecEvent) -> Seq<char> {
    match e {
        SpecEvent::Dialogue { speaker, text, .. } => match speaker {
            Some(s) => "say:"@ + s + ":"@ + text,
            None => "say:"@ + text,
        },
        SpecEvent::Scene { image, .. } => "scene:"@ + image,
        SpecEvent::Show { tag, attrs, position, .. } => "show:"@ + tag + ":"@ + join_with(attrs, ' ') + ":"@
            + position,
        SpecEvent::Hide { tag } => "hide:"@ + tag,
        SpecEvent::PlayMusic { path } => "play-music:"@ + path,
        SpecEvent::StopMusic => "stop-music"@,
        SpecEvent::Menu { choices } => "menu:"@ + join_with(choices, '|'),
        SpecEvent::End => "end"@,
    }
}

/// Formats an event as one line of headless output.
pub fn format_event(event: &VmEvent) -> (r: String)
    ensures
        r@ == event_line(event@),
{
    let mut out: Vec<char>;
    match event {
        VmEvent::Dialogue { speaker, text, .. } => {
            out = chars_of("say:");
            if let Some(s) = speaker {
                let sc = chars_of(s.as_str());
                push_all(&mut out, sc.as_slice());
                let colon = chars_of(":");
                push_all(&mut out, colon.as_slice());
            }
            let t = chars_of(text.as_str());
            push_all(&mut out, t.as_slice());
        },
        VmEvent::Scene { image, .. } => {
            out = chars_of("scene:");
            let t = chars_of(image.as_str());
            push_all(&mut out, t.as_slice());
        },
        VmEvent::Show { tag, attrs, position, .. } => {
            out = chars_of("show:");
            let t = chars_of(tag.as_str());
            push_all(&mut out, t.as_slice());
            let colon = chars_of(":");
            push_all(&mut out, colon.as_slice());
            proof {
                crate::text::lemma_strings_deep_view(*attrs);
            }
            let a = join_strings(attrs.as_slice(), ' ');
            push_all(&mut out, a.as_slice());
            push_all(&mut out, colon.as_slice());
            let p = chars_of(position.as_str());
            push_all(&mut out, p.as_slice());
        },
        VmEvent::Hide { tag } => {
            out = chars_of("hide:");
            let t = chars_of(tag.as_str());
            push_all(&mut out, t.as_slice());
        },
        VmEvent::PlayMusic { path } => {
            out = chars_of("play-music:");
            let t = chars_of(path.as_str());
            push_all(&mut out, t.as_slice());
        },
        VmEvent::StopMusic => {
            out = chars_of("stop-music");
        },
        VmEvent::Menu { choices } => {
            out = chars_of("menu:");
            proof {
                crate::text::lemma_strings_deep_view(*choices);
            }
            let a = join_strings(choices.as_slice(), '|');
            push_all(&mut out, a.as_slice());
        },
        VmEvent::End => {
            out = chars_of("end");
        },
    }
    string_of(out.as_slice())
}

// ---------------------------------------------------------------------------
// The headless smoke run.
// ---------------------------------------------------------------------------

/// Applies the commands of an event to a presentation.
pub fn present(snapshot: &mut PresentationSnapshot, event: &VmEvent)
    ensures
        final(snapshot)@ == apply_all(old(snapshot)@, event_commands(event@)),
{
    let cs = commands_from_event(event);
    let ghost all = cs@.map_values(|c: PresentationCommand| c@);
    let mut i: usize = 0;
    while i < cs.len()
        invariant
            i <= cs@.len(),
            all == cs@.map_values(|c: PresentationCommand| c@),
            snapshot@ == apply_all(old(snapshot)@, all.take(i as int)),
        decreases cs@.len() - i,
    {
        apply_command(snapshot, &cs[i]);
        assert(all.take(i + 1).drop_last() =~= all.take(i as int));
        i = i + 1;
    }
    assert(all.take(cs@.len() as int) =~= all);
}

/// Where a headless run stopped.
#[derive(Clone, Copy, Debug, PartialEq, Eq, Structural)]
pub enum HeadlessStop {
    Menu,
    End,
    /// It went on for the number of events it was allowed.
    Limit,
}

/// A headless run of at most `fuel` events: where it stopped (or the error that stopped it),
/// the machine and presentation it left, and the lines it printed.
pub open spec fn headless(m: SpecVm, p: SpecPresentation, fuel: nat) -> (Result<HeadlessStop, SpecVmError>, SpecVm, SpecPresentation, Seq<Seq<char>>)
    decreases fuel,
{
    if fuel == 0 {
        (Ok(HeadlessStop::Limit), m, p, Seq::empty())
    } else {
        let (res, m2) = continued(m);
        match res {
            Err(e) => (Err(e), m2, p, Seq::empty()),
            Ok(e) => {
                let p2 = apply_all(p, event_commands(e));
                if e is Menu {
                    (Ok(HeadlessStop::Menu), m2, p2, seq![event_line(e)])
                } else if e is End {
                    (Ok(HeadlessStop::End), m2, p2, seq![event_line(e)])
                } else {
                    let r = headless(m2, p2, (fuel - 1) as nat);
                    (r.0, r.1, r.2, seq![event_line(e)] + r.3)
                }
            },
        }
    }
}

/// Lines of text as character sequences.
pub open spec fn lines_view(v: Seq<String>) -> Seq<Seq<char>> {
    v.map_values(|s: String| s@)
}

/// Runs a story headlessly, presenting and printing each event, until a menu, the end, or
/// `limit` events: where it stopped and the printed lines, or the error that stopped it.
pub fn run_headless(vm: &mut Vm, presentation: &mut PresentationSnapshot, limit: usize) -> (r: Result<(HeadlessStop, Vec<String>), VmError>)
    ensures
        final(vm)@ == headless(old(vm)@, old(presentation)@, limit as nat).1,
        final(presentation)@ == headless(old(vm)@, old(presentation)@, limit as nat).2,
        match r {
            Ok((stop, lines)) => headless(old(vm)@, old(presentation)@, limit as nat).0 == Ok::<HeadlessStop, SpecVmError>(stop)
                && lines_view(lines@) == headless(old(vm)@, old(presentation)@, limit as nat).3,
            Err(e) => headless(old(vm)@, old(presentation)@, limit as nat).0 == Err::<HeadlessStop, SpecVmError>(e@),
        },
{
    let ghost m0 = vm@;
    let ghost p0 = presentation@;
    let mut lines: Vec<String> = Vec::new();
    let mut left = limit;
    loop
        invariant
            left <= limit,
            m0 == old(vm)@,
            p0 == old(presentation)@,
            headless(m0, p0, limit as nat).0 == headless(vm@, presentation@, left as nat).0,
            headless(m0, p0, limit as nat).1 == headless(vm@, presentation@, left as nat).1,
            headless(m0, p0, limit as nat).2 == headless(vm@, presentation@, left as nat).2,
            headless(m0, p0, limit as nat).3 == lines_view(lines@) + headless(vm@, presentation@, left as nat).3,
        decreases left,
    {
        if left == 0 {
            assert(lines_view(lines@) + Seq::<Seq<char>>::empty() =~= lines_view(lines@));
            return Ok((HeadlessStop::Limit, lines));
        }
        let ghost mv = vm@;
        let ghost pv = presentation@;
        let event = match vm.continue_until_interaction() {
            Ok(e) => e,
            Err(e) => {
                assert(headless(mv, pv, left as nat).0 == Err::<HeadlessStop, SpecVmError>(e@));
                return Err(e);
            },
        };
        assert(continued(mv) == (Ok::<SpecEvent, SpecVmError>(event@), vm@));
        present(presentation, &event);
        let line = format_event(&event);
        let ghost before = lines@;
        lines.push(line);
        assert(lines_view(lines@) =~= lines_view(before).push(event_line(event@)));
        let stop = match &event {
            VmEvent::Menu { .. } => Some(HeadlessStop::Menu),
            VmEvent::End => Some(HeadlessStop::End),
            _ => None,
        };
        match stop {
            Some(s) => {
                assert(lines_view(lines@) =~= lines_view(before) + seq![event_line(event@)]);
                return Ok((s, lines));
            },
            None => {
                let ghost rest = headless(vm@, presentation@, (left - 1) as nat);
                assert(headless(mv, pv, left as nat).3 == seq![event_line(event@)] + rest.3);
                assert(lines_view(before) + (seq![event_line(event@)] + rest.3) =~= lines_view(lines@) + rest.3);
                left = left - 1;
            },
        }
    }
}

/// What the smoke run does after restoring its save at the menu: it chooses the first entry,
/// presents and prints the event that follows, then rolls back and prints what the rollback
/// shows, or that there was nothing to roll back.
pub open spec fn smoke_tail(m: SpecVm, p: SpecPresentation) -> Result<(Seq<Seq<char>>, SpecPresentation, SpecVm), SpecVmError> {
    let (res, m2) = selected(m, 0);
    match res {
        Err(e) => Err(e),
        Ok(e) => {
            let (rb, m3) = rolled_back(m2);
            let back = match rb {
                Some(ev) => "rollback:"@ + event_line(ev),
                None => "rollback:none"@,
            };
            Ok((seq![event_line(e), back], apply_all(p, event_commands(e)), m3))
        },
    }
}

/// Chooses the first menu entry on a restored machine, then rolls back; the two printed lines.
pub fn finish_smoke(restored: &mut Vm, presentation: &mut PresentationSnapshot) -> (r: Result<Vec<String>, VmError>)
    ensures
        match r {
            Ok(lines) => smoke_tail(old(restored)@, old(presentation)@) matches Ok((ls, p, m))
                && lines_view(lines@) == ls && final(presentation)@ == p && final(restored)@ == m,
            Err(e) => smoke_tail(old(restored)@, old(presentation)@) == Err::<(Seq<Seq<char>>, SpecPresentation, SpecVm), SpecVmError>(e@),
        },
{
    let next = match restored.select(0) {
        Ok(e) => e,
        Err(e) => return Err(e),
    };
    present(presentation, &next);
    let first = format_event(&next);
    let back = match restored.rollback() {
        Some(event) => {
            let mut buf = chars_of("rollback:");
            let line = format_event(&event);
            let lc = chars_of(line.as_str());
            push_all(&mut buf, lc.as_slice());
            string_of(buf.as_slice())
        },
        None => String::from_str("rollback:none"),
    };
    let lines = vec![first, back];
    assert(lines_view(lines@) =~= smoke_tail(old(restored)@, old(presentation)@)->Ok_0.0);
    Ok(lines)
}

} // verus!
