//! Tying the touchscreen to the virtual output on KWin.
//!
//! KWin has no Wayland protocol for this. The association lives in
//! `kcminputrc`, under a section shaped like:
//!
//! ```ini
//! [Libinput][19794][19524][moreland-touch]
//! output=Virtual-moreland
//! ```
//!
//! The numbers are the decimal forms of the vendor and product that the
//! touchscreen declares; the name is the device's own. KWin reads the file at
//! startup and when asked to reconfigure.

use vstd::prelude::*;

use crate::command::{Invocation, InvocationView};
use crate::daemon::input::{PRODUCT_ID, VENDOR_ID};
use crate::number::{decimal, digits, push_decimal};
use crate::text::{
    begins_with, chars_of, index_of, lemma_index_of, lemma_index_of_unique, lines, lines_of, same,
    string_of, texts, trim_end, trimmed_end, without_return,
};

verus! {

/// The header of the section for a device.
pub open spec fn section_of(device_name: Seq<char>) -> Seq<char> {
    "[Libinput]["@ + decimal(VENDOR_ID as nat) + "]["@ + decimal(PRODUCT_ID as nat) + "]["@
        + device_name + "]"@
}

/// Whether a line of the file is the header of the section for a device, with
/// or without blanks behind it.
pub open spec fn has_section(existing: Seq<char>, device_name: Seq<char>) -> bool {
    exists|i: int|
        0 <= i < lines_of(existing).len() && trimmed_end(#[trigger] lines_of(existing)[i])
            == section_of(device_name)
}

/// The lines of a text, each with a line feed.
pub open spec fn relined(lines: Seq<Seq<char>>) -> Seq<char>
    decreases lines.len(),
{
    if lines.len() == 0 {
        Seq::empty()
    } else {
        relined(lines.drop_last()) + lines.last() + "\n"@
    }
}

/// A file with the section for a device at its end.
pub open spec fn with_section(
    existing: Seq<char>,
    device_name: Seq<char>,
    output_name: Seq<char>,
) -> Seq<char> {
    relined(lines_of(existing)) + "\n"@ + section_of(device_name) + "\noutput=Virtual-"@
        + output_name + "\n"@
}

fn section(device_name: &str) -> (r: String)
    ensures
        r@ == section_of(device_name@),
{
    let mut out = String::from_str("[Libinput][");
    push_decimal(&mut out, VENDOR_ID as u64);
    out.append("][");
    push_decimal(&mut out, PRODUCT_ID as u64);
    out.append("][");
    out.append(device_name);
    out.append("]");
    out
}

/// The new contents of the file, where it needs any. A section that is there is
/// left alone: if the user has chosen an output, it must stay.
pub fn kwin_associate_touchscreen(existing: &str, device_name: &str, output_name: &str) -> (r:
    Option<String>)
    ensures
        r is None <==> has_section(existing@, device_name@),
        r matches Some(text) ==> text@ == with_section(existing@, device_name@, output_name@),
{
    let header = section(device_name);
    let cs = chars_of(existing);
    let needle = chars_of(header.as_str());
    let all = lines(cs.as_slice());
    let ghost views = texts(all@);
    let mut out = String::new();
    let mut i: usize = 0;
    assert(out@ =~= Seq::<char>::empty());
    while i < all.len()
        invariant
            i <= all@.len(),
            views == texts(all@),
            views == lines_of(existing@),
            needle@ == section_of(device_name@),
            forall|k: int|
                0 <= k < i ==> trimmed_end(#[trigger] views[k]) != section_of(device_name@),
            out@ == relined(views.take(i as int)),
        decreases all@.len() - i,
    {
        assert(views[i as int] == all@[i as int]@);
        if same(trim_end(all[i].as_slice()), needle.as_slice()) {
            return None;
        }
        assert(views.take(i + 1).drop_last() =~= views.take(i as int));
        assert(views.take(i + 1).last() == all@[i as int]@);
        out.append(string_of(all[i].as_slice()).as_str());
        out.append("\n");
        i += 1;
    }
    assert(views.take(i as int) =~= views);
    out.append("\n");
    out.append(header.as_str());
    out.append("\noutput=Virtual-");
    out.append(output_name);
    out.append("\n");
    Some(out)
}

/// Where the file is, or that there is no telling.
pub fn kcminputrc_path(xdg_config_home: Option<String>, home: Option<String>) -> (r: Option<String>)
    ensures
        match (xdg_config_home, home) {
            (Some(xdg), _) if xdg@.len() > 0 => r matches Some(p) && p@ == path_in(
                xdg@,
                "kcminputrc"@,
            ),
            (_, Some(home)) => r matches Some(p) && p@ == path_in(home@, ".config/kcminputrc"@),
            _ => r is None,
        },
{
    match xdg_config_home {
        Some(xdg) => {
            if !xdg.as_str().is_empty() {
                return Some(path(xdg, "kcminputrc"));
            }
        },
        None => {},
    }
    match home {
        Some(home) => Some(path(home, ".config/kcminputrc")),
        None => None,
    }
}

/// A relative path inside a directory.
pub open spec fn path_in(dir: Seq<char>, rest: Seq<char>) -> Seq<char> {
    if dir.len() == 0 || dir.last() == '/' {
        dir + rest
    } else {
        dir + "/"@ + rest
    }
}

fn path(dir: String, rest: &str) -> (r: String)
    ensures
        r@ == path_in(dir@, rest@),
{
    let cs = chars_of(dir.as_str());
    let mut out = dir;
    if cs.len() > 0 && cs[cs.len() - 1] != '/' {
        out.append("/");
    }
    out.append(rest);
    out
}

/// The ways to ask KWin to read the file again, from the first to try.
pub open spec fn reconfigure_attempts() -> Seq<InvocationView> {
    seq![
        InvocationView {
            program: "qdbus6"@,
            args: seq!["org.kde.KWin"@, "/KWin"@, "reconfigure"@],
        },
        InvocationView {
            program: "qdbus"@,
            args: seq!["org.kde.KWin"@, "/KWin"@, "reconfigure"@],
        },
        InvocationView {
            program: "dbus-send"@,
            args: seq![
                "--session"@,
                "--dest=org.kde.KWin"@,
                "/KWin"@,
                "org.kde.KWin.reconfigure"@,
            ],
        },
    ]
}

pub open spec fn invocation_views(v: Seq<Invocation>) -> Seq<InvocationView> {
    v.map_values(|i: Invocation| i@)
}

fn attempts() -> (r: Vec<Invocation>)
    ensures
        invocation_views(r@) == reconfigure_attempts(),
{
    let a = Invocation::of("qdbus6").arg("org.kde.KWin").arg("/KWin").arg("reconfigure");
    let b = Invocation::of("qdbus").arg("org.kde.KWin").arg("/KWin").arg("reconfigure");
    let c = Invocation::of("dbus-send").arg("--session").arg("--dest=org.kde.KWin").arg(
        "/KWin",
    ).arg("org.kde.KWin.reconfigure");
    assert(a@.args =~= seq!["org.kde.KWin"@, "/KWin"@, "reconfigure"@]);
    assert(b@.args =~= seq!["org.kde.KWin"@, "/KWin"@, "reconfigure"@]);
    assert(c@.args =~= seq![
        "--session"@,
        "--dest=org.kde.KWin"@,
        "/KWin"@,
        "org.kde.KWin.reconfigure"@,
    ]);
    let mut out: Vec<Invocation> = Vec::new();
    out.push(a);
    out.push(b);
    out.push(c);
    assert(invocation_views(out@) =~= reconfigure_attempts());
    out
}

/// Ask KWin to read the file again, by the first way that works; false where
/// none does, and the association waits for the next start of KWin.
pub fn trigger_kwin_reconfigure<F: Fn(&Invocation) -> bool>(run: F) -> (r: bool)
    requires
        forall|i: &Invocation| #[trigger] run.requires((i,)),
    ensures
        r ==> exists|n: int, i: &Invocation|
            {
                &&& 0 <= n < 3 && i@ == #[trigger] reconfigure_attempts()[n]
                &&& #[trigger] run.ensures((i,), true)
                &&& forall|m: int|
                    0 <= m < n ==> exists|i: &Invocation|
                        i@ == (#[trigger] reconfigure_attempts()[m]) && run.ensures((i,), false)
            },
        !r ==> forall|n: int|
            0 <= n < 3 ==> exists|i: &Invocation|
                i@ == (#[trigger] reconfigure_attempts()[n]) && run.ensures((i,), false),
{
    let list = attempts();
    let ghost views = invocation_views(list@);
    assert(views.len() == list@.len());
    let mut n: usize = 0;
    while n < list.len()
        invariant
            n <= list@.len(),
            list@.len() == 3,
            views == invocation_views(list@),
            views == reconfigure_attempts(),
            forall|i: &Invocation| #[trigger] run.requires((i,)),
            forall|m: int|
                0 <= m < n ==> exists|i: &Invocation|
                    i@ == (#[trigger] reconfigure_attempts()[m]) && run.ensures((i,), false),
        decreases list@.len() - n,
    {
        let attempt = &list[n];
        assert(views[n as int] == attempt@);
        let worked = run(attempt);
        if worked {
            assert(attempt@ == reconfigure_attempts()[n as int] && run.ensures((attempt,), true));
            return true;
        }
        assert(attempt@ == reconfigure_attempts()[n as int] && run.ensures((attempt,), false));
        n += 1;
    }
    false
}

// -------------------------------------------------------------------- laws ---

/// A line between two line feeds is found among the lines.
proof fn lemma_line(before: Seq<char>, line: Seq<char>, after: Seq<char>)
    requires
        before.len() == 0 || before.last() == '\n',
        !line.contains('\n'),
    ensures
        lines_of(before + line + seq!['\n'] + after).contains(without_return(line)),
    decreases before.len(),
{
    let all = before + line + seq!['\n'] + after;
    let end = (before.len() + line.len()) as int;
    assert(all[end] == '\n');
    lemma_index_of(all, '\n');
    let n = index_of(all, '\n');
    if before.len() == 0 {
        assert forall|k: int| 0 <= k < end implies all[k] != '\n' by {
            assert(all[k] == line[k]);
            assert(line.contains(line[k]));
        }
        lemma_index_of_unique(all, '\n', end);
        assert(all.take(end) =~= line);
        assert(lines_of(all)[0] == without_return(line));
    } else {
        assert(all[before.len() - 1] == '\n');
        assert(n < before.len());
        let rest = before.skip(n + 1);
        lemma_line(rest, line, after);
        assert(all.skip(n + 1) =~= rest + line + seq!['\n'] + after);
        let later = lines_of(all.skip(n + 1));
        let k = later.index_of(without_return(line));
        assert(lines_of(all)[k + 1] == later[k]);
    }
}

/// Once the section has been written it is found again, so it is not written
/// twice and a choice made in it stays. The name of a device holds no line
/// feed.
pub proof fn association_is_written_once(
    existing: Seq<char>,
    device_name: Seq<char>,
    output_name: Seq<char>,
)
    requires
        !device_name.contains('\n'),
    ensures
        has_section(with_section(existing, device_name, output_name), device_name),
{
    let section = section_of(device_name);
    let all = with_section(existing, device_name, output_name);
    let before = relined(lines_of(existing)) + "\n"@;
    let after = "output=Virtual-"@ + output_name + "\n"@;
    reveal_strlit("\n");
    reveal_strlit("output=Virtual-");
    reveal_strlit("\noutput=Virtual-");
    reveal_strlit("[Libinput][");
    reveal_strlit("][");
    reveal_strlit("]");
    reveal_with_fuel(digits, 6);
    assert(decimal(VENDOR_ID as nat) =~= seq!['1', '9', '7', '9', '4']);
    assert(decimal(PRODUCT_ID as nat) =~= seq!['1', '9', '5', '2', '4']);
    assert(section.last() == ']');
    assert(!section.contains('\n')) by {
        let front = "[Libinput]["@ + decimal(VENDOR_ID as nat) + "]["@ + decimal(PRODUCT_ID as nat)
            + "]["@;
        assert(section =~= front + device_name + "]"@);
        assert forall|k: int| 0 <= k < section.len() implies section[k] != '\n' by {
            if front.len() <= k < front.len() + device_name.len() {
                assert(section[k] == device_name[k - front.len()]);
                assert(device_name.contains(section[k]));
            }
        }
    }
    assert("\noutput=Virtual-"@ =~= seq!['\n'] + "output=Virtual-"@);
    assert(all =~= before + section + seq!['\n'] + after);
    lemma_line(before, section, after);
    let i = lines_of(all).index_of(section);
    assert(trimmed_end(lines_of(all)[i]) == section);
}

/// What was in the file stays in front of the new section.
pub proof fn association_keeps_the_rest(
    existing: Seq<char>,
    device_name: Seq<char>,
    output_name: Seq<char>,
)
    ensures
        begins_with(
            with_section(existing, device_name, output_name),
            relined(lines_of(existing)),
        ),
{
    let all = with_section(existing, device_name, output_name);
    let kept = relined(lines_of(existing));
    assert(all.take(kept.len() as int) =~= kept);
}

/// What is written is everything that was there, a blank line, and the section of the
/// device with the output that it belongs to: the device by the numbers and the name
/// that it has, the output by the name that KWin gives it.
pub proof fn sections_name_device_and_output(
    existing: Seq<char>,
    device_name: Seq<char>,
    output_name: Seq<char>,
)
    ensures
        with_section(existing, device_name, output_name) == relined(lines_of(existing))
            + "\n[Libinput][19794][19524]["@ + device_name + "]\noutput=Virtual-"@ + output_name
            + "\n"@,
{
    reveal_strlit("\n");
    reveal_strlit("[Libinput][");
    reveal_strlit("][");
    reveal_strlit("]");
    reveal_strlit("\noutput=Virtual-");
    reveal_strlit("\n[Libinput][19794][19524][");
    reveal_strlit("]\noutput=Virtual-");
    reveal_with_fuel(digits, 6);
    assert(decimal(VENDOR_ID as nat) =~= seq!['1', '9', '7', '9', '4']);
    assert(decimal(PRODUCT_ID as nat) =~= seq!['1', '9', '5', '2', '4']);
    assert("\n[Libinput][19794][19524]["@ =~= "\n"@ + "[Libinput]["@ + decimal(VENDOR_ID as nat)
        + "]["@ + decimal(PRODUCT_ID as nat) + "]["@);
    assert("]\noutput=Virtual-"@ =~= "]"@ + "\noutput=Virtual-"@);
    assert(with_section(existing, device_name, output_name) =~= relined(lines_of(existing))
        + "\n[Libinput][19794][19524]["@ + device_name + "]\noutput=Virtual-"@ + output_name
        + "\n"@);
}

/// What is kept is kept line by line, in order, each with its line feed.
pub proof fn lines_are_kept(lines: Seq<Seq<char>>, line: Seq<char>)
    ensures
        relined(Seq::<Seq<char>>::empty()) == Seq::<char>::empty(),
        relined(lines.push(line)) == relined(lines) + line + "\n"@,
{
    assert(lines.push(line).drop_last() =~= lines);
}

/// A section is there exactly where a line is its header, give or take blanks behind
/// it.
pub proof fn sections_are_found_by_their_line(
    existing: Seq<char>,
    device_name: Seq<char>,
    line: Seq<char>,
    rest: Seq<char>,
)
    requires
        !line.contains('\n'),
        line.len() == 0 || line.last() != '\r',
    ensures
        has_section(line + seq!['\n'] + rest, device_name) <==> trimmed_end(line) == section_of(
            device_name,
        ) || has_section(rest, device_name),
        !has_section(Seq::<char>::empty(), device_name),
{
    crate::text::line_feeds_end_lines(line, rest);
    let all = line + seq!['\n'] + rest;
    let later = lines_of(rest);
    assert(lines_of(all) == seq![line] + later);
    assert(lines_of(all)[0] == line);
    if has_section(all, device_name) {
        let i = choose|i: int|
            0 <= i < lines_of(all).len() && trimmed_end(#[trigger] lines_of(all)[i]) == section_of(
                device_name,
            );
        if i > 0 {
            assert(later[i - 1] == lines_of(all)[i]);
        }
    }
    if has_section(rest, device_name) {
        let i = choose|i: int|
            0 <= i < later.len() && trimmed_end(#[trigger] later[i]) == section_of(device_name);
        assert(lines_of(all)[i + 1] == later[i]);
    }
}

/// A file in a directory is named behind one slash, which is not doubled.
pub proof fn paths_are_joined(dir: Seq<char>, rest: Seq<char>)
    ensures
        dir.len() > 0 && dir.last() != '/' ==> path_in(dir, rest) == dir + "/"@ + rest,
        dir.len() > 0 && dir.last() == '/' ==> path_in(dir, rest) == dir + rest,
{
}

} // verus!
