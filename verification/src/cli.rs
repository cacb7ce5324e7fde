//! What the command line prints.
use crate::cdp_client::devtools_url;
use crate::decimal::{decimal, write_unsigned};
use crate::discovery::page_url;
use crate::domain_remo::{array_of_texts, text_array};
use crate::json::{Json, JsonView};
use crate::json_text::{canonical, orderly, orderly_is_canonical, pretty_text, to_pretty_text};
use crate::order::{
    keyed, sort_by_name, sorted_by_name, sorted_by_name_never_descends, text_before,
};
use crate::text::{joined3, texts};
use vstd::prelude::*;

verus! {

/// The filter for log messages that a count of verbosity flags asks for.
pub open spec fn filter_for(verbose: u8) -> Seq<char> {
    if verbose == 0 {
        "remo=warn"@
    } else if verbose == 1 {
        "remo=info"@
    } else if verbose == 2 {
        "remo=debug"@
    } else {
        "remo=trace"@
    }
}

/// The filter for log messages that a count of verbosity flags asks for.
pub fn log_filter(verbose: u8) -> (filter: &'static str)
    ensures
        filter@ == filter_for(verbose),
{
    match verbose {
        0 => "remo=warn",
        1 => "remo=info",
        2 => "remo=debug",
        _ => "remo=trace",
    }
}

/// Where a command connects to.
#[derive(Debug)]
pub enum Dial {
    /// To the device of an id, through a cable.
    Usb(u32),
    /// To an address.
    Tcp(String),
}

/// Where a command connects to: a device that is named goes before the address.
pub fn dial(device: Option<u32>, address: String) -> (target: Dial)
    ensures
        target == (match device {
            Some(id) => Dial::Usb(id),
            None => Dial::Tcp(address),
        }),
{
    match device {
        Some(id) => Dial::Usb(id),
        None => Dial::Tcp(address),
    }
}

/// The line for a device on a cable.
pub open spec fn usb_line(device: (u32, String)) -> Seq<char> {
    "  ["@ + decimal(device.0 as int) + "] "@ + device.1@ + " (dial with `remo <command> --device "@
        + decimal(device.0 as int) + "`)"@
}

/// The lines for the devices on cables.
pub open spec fn usb_listing(outcome: Result<Vec<(u32, String)>, String>) -> Seq<Seq<char>> {
    match outcome {
        Ok(devices) => if devices@.len() > 0 {
            Seq::new(devices@.len(), |i: int| usb_line(devices@[i]))
        } else {
            seq!["  (none found)"@]
        },
        Err(error) => seq!["  usbmuxd unavailable: "@ + error@],
    }
}

/// The lines for the devices on cables, each by its id and its serial number.
pub fn usb_lines(outcome: &Result<Vec<(u32, String)>, String>) -> (lines: Vec<String>)
    ensures
        texts(lines@) == usb_listing(*outcome),
{
    let mut lines: Vec<String> = Vec::new();
    match outcome {
        Ok(devices) => {
            if devices.len() == 0 {
                lines.push("  (none found)".to_owned());
                assert(texts(lines@) =~= usb_listing(*outcome));
                return lines;
            }
            let mut i: usize = 0;
            while i < devices.len()
                invariant
                    i <= devices.len(),
                    lines@.len() == i,
                    forall|j: int| 0 <= j < i ==> (#[trigger] lines@[j])@ == usb_line(devices@[j]),
                decreases devices.len() - i,
            {
                let id = write_unsigned(devices[i].0 as u64);
                let mut line = joined3("  [", id.as_str(), "] ");
                line.append(devices[i].1.as_str());
                line.append(" (dial with `remo <command> --device ");
                line.append(id.as_str());
                line.append("`)");
                lines.push(line);
                i = i + 1;
            }
            assert(texts(lines@) =~= usb_listing(*outcome));
        },
        Err(error) => {
            let mut line = "  usbmuxd unavailable: ".to_owned();
            line.append(error.as_str());
            lines.push(line);
            assert(texts(lines@) =~= usb_listing(*outcome));
        },
    }
    lines
}

/// A service that was found on the network.
#[derive(Debug)]
pub struct Service {
    pub name: String,
    /// Its address, where it could be resolved.
    pub address: Option<String>,
    pub host: String,
    pub port: u16,
}

/// The line for a service.
pub open spec fn service_line(service: Service) -> Seq<char> {
    match service.address {
        Some(address) => "  "@ + service.name@ + " -> "@ + page_url(address@, "1"@)
            + " (dial with --addr "@ + address@ + ")"@,
        None => "  "@ + service.name@ + " -> could not resolve "@ + service.host@ + ":"@
            + decimal(service.port as int),
    }
}

/// The lines for the services on the network.
pub open spec fn service_listing(outcome: Result<Vec<Service>, String>) -> Seq<Seq<char>> {
    match outcome {
        Ok(services) => if services@.len() > 0 {
            Seq::new(services@.len(), |i: int| service_line(services@[i]))
        } else {
            seq!["  (none found)"@]
        },
        Err(error) => seq!["  Bonjour unavailable: "@ + error@],
    }
}

/// The lines for the services on the network.
pub fn service_lines(outcome: &Result<Vec<Service>, String>) -> (lines: Vec<String>)
    ensures
        texts(lines@) == service_listing(*outcome),
{
    let mut lines: Vec<String> = Vec::new();
    match outcome {
        Ok(services) => {
            if services.len() == 0 {
                lines.push("  (none found)".to_owned());
                assert(texts(lines@) =~= service_listing(*outcome));
                return lines;
            }
            let mut i: usize = 0;
            while i < services.len()
                invariant
                    i <= services.len(),
                    lines@.len() == i,
                    forall|j: int|
                        0 <= j < i ==> (#[trigger] lines@[j])@ == service_line(services@[j]),
                decreases services.len() - i,
            {
                let service = &services[i];
                match &service.address {
                    Some(address) => {
                        let mut line = joined3("  ", service.name.as_str(), " -> ");
                        line.append(devtools_url(address.as_str()).as_str());
                        line.append(" (dial with --addr ");
                        line.append(address.as_str());
                        line.append(")");
                        lines.push(line);
                    },
                    None => {
                        let mut line = joined3(
                            "  ",
                            service.name.as_str(),
                            " -> could not resolve ",
                        );
                        line.append(service.host.as_str());
                        line.append(":");
                        line.append(write_unsigned(service.port as u64).as_str());
                        lines.push(line);
                    },
                }
                i = i + 1;
            }
            assert(texts(lines@) =~= service_listing(*outcome));
        },
        Err(error) => {
            let mut line = "  Bonjour unavailable: ".to_owned();
            line.append(error.as_str());
            lines.push(line);
            assert(texts(lines@) =~= service_listing(*outcome));
        },
    }
    lines
}

/// Names with nothing beside them.
pub open spec fn bare(names: Seq<Seq<char>>) -> Seq<(Seq<char>, ())> {
    Seq::new(names.len(), |i: int| (names[i], ()))
}

/// Names in their order.
pub open spec fn sorted(names: Seq<Seq<char>>) -> Seq<Seq<char>> {
    Seq::new(sorted_by_name(bare(names)).len(), |i: int| sorted_by_name(bare(names))[i].0)
}

/// What is printed of the names of capabilities: an array of them in their order.
pub fn capabilities_text(names: &Vec<String>) -> (text: String)
    ensures
        text@ == pretty_text(text_array(sorted(texts(names@)))),
{
    let mut pairs: Vec<(String, ())> = Vec::new();
    let mut i: usize = 0;
    while i < names.len()
        invariant
            i <= names.len(),
            pairs@.len() == i,
            forall|j: int| 0 <= j < i ==> (#[trigger] pairs@[j]).0@ == names@[j]@,
        decreases names.len() - i,
    {
        pairs.push((names[i].clone(), ()));
        i = i + 1;
    }
    assert(keyed(pairs@) =~= bare(texts(names@)));
    let ordered = sort_by_name(pairs);
    let ghost goal = sorted(texts(names@));
    let mut list: Vec<String> = Vec::new();
    let mut k: usize = 0;
    while k < ordered.len()
        invariant
            k <= ordered.len(),
            list@.len() == k,
            forall|j: int| 0 <= j < k ==> (#[trigger] list@[j])@ == ordered@[j].0@,
        decreases ordered.len() - k,
    {
        list.push(ordered[k].0.clone());
        k = k + 1;
    }
    assert(texts(list@) =~= goal) by {
        assert forall|j: int| 0 <= j < list@.len() implies (#[trigger] list@[j])@ == goal[j] by {
            assert(keyed(ordered@)[j].0 == ordered@[j].0@);
        }
    }
    proof {
        text_array_is_canonical(goal);
    }
    to_pretty_text(&array_of_texts(&list))
}

proof fn text_array_is_canonical(names: Seq<Seq<char>>)
    ensures
        canonical(text_array(names)) == text_array(names),
{
    let items = text_array(names)->Array_0;
    assert forall|i: int| 0 <= i < items.len() implies orderly(#[trigger] items[i]) by {
        assert(items[i] == JsonView::Text(names[i]));
    }
    orderly_is_canonical(text_array(names));
}

/// What is printed before a capability is called.
pub fn calling_line(capability: &str) -> (line: String)
    ensures
        line@ == "Calling '"@ + capability@ + "'..."@,
{
    joined3("Calling '", capability, "'...")
}

/// What is printed of the result of a call.
pub fn result_text(result: &Json) -> (text: String)
    ensures
        text@ == pretty_text(canonical(result@)),
{
    to_pretty_text(result)
}

/// What is printed after a screenshot was written.
pub fn saved_line(output: &str, len: usize) -> (line: String)
    ensures
        line@ == "Screenshot saved to "@ + output@ + " ("@ + decimal(len as int) + " bytes)"@,
{
    let mut line = joined3("Screenshot saved to ", output, " (");
    line.append(write_unsigned(len as u64).as_str());
    line.append(" bytes)");
    line
}

/// The text under a key, or another where there is none.
pub open spec fn text_or(value: JsonView, key: Seq<char>, other: Seq<char>) -> Seq<char> {
    match value.string_field(key) {
        Some(text) => text,
        None => other,
    }
}

fn text_else(value: &Json, key: &str, other: &str) -> (text: String)
    ensures
        text@ == text_or(value@, key@, other@),
{
    match value.str_field(key) {
        Some(text) => text.to_owned(),
        None => other.to_owned(),
    }
}

/// What is printed of a device and its app; `screen` holds the size of the screen.
pub open spec fn info_listing(device: JsonView, app: JsonView, screen: Seq<char>) -> Seq<
    Seq<char>,
> {
    seq![
        "=== Device ==="@,
        "  Name:    "@ + text_or(device, "name"@, "unknown"@),
        "  Model:   "@ + text_or(device, "model"@, "unknown"@),
        "  OS:      "@ + text_or(device, "system_name"@, "?"@) + " "@ + text_or(
            device,
            "system_version"@,
            "?"@,
        ),
        "  Screen:  "@ + screen,
        ""@,
        "=== App ==="@,
        "  Name:    "@ + text_or(app, "display_name"@, "unknown"@),
        "  Bundle:  "@ + text_or(app, "bundle_id"@, "unknown"@),
        "  Version: "@ + text_or(app, "version"@, "?"@) + " ("@ + text_or(app, "build"@, "?"@)
            + ")"@,
    ]
}

fn labelled(label: &str, text: String) -> (line: String)
    ensures
        line@ == label@ + text@,
{
    let mut line = label.to_owned();
    line.append(text.as_str());
    line
}

/// What is printed of a device and its app; `screen` holds the size of the screen.
pub fn info_lines(device: &Json, app: &Json, screen: &str) -> (lines: Vec<String>)
    ensures
        texts(lines@) == info_listing(device@, app@, screen@),
{
    let mut os = labelled("  OS:      ", text_else(device, "system_name", "?"));
    os.append(" ");
    os.append(text_else(device, "system_version", "?").as_str());
    let mut version = labelled("  Version: ", text_else(app, "version", "?"));
    version.append(" (");
    version.append(text_else(app, "build", "?").as_str());
    version.append(")");
    let lines = vec![
        "=== Device ===".to_owned(),
        labelled("  Name:    ", text_else(device, "name", "unknown")),
        labelled("  Model:   ", text_else(device, "model", "unknown")),
        os,
        labelled("  Screen:  ", screen.to_owned()),
        "".to_owned(),
        "=== App ===".to_owned(),
        labelled("  Name:    ", text_else(app, "display_name", "unknown")),
        labelled("  Bundle:  ", text_else(app, "bundle_id", "unknown")),
        version,
    ];
    assert(texts(lines@) =~= info_listing(device@, app@, screen@));
    lines
}

/// Whether a text begins with one text, ends in another, and holds both apart.
pub open spec fn framed(text: Seq<char>, front: Seq<char>, back: Seq<char>) -> bool {
    &&& text.len() >= front.len() + back.len()
    &&& text.take(front.len() as int) == front
    &&& text.skip(text.len() - back.len()) == back
}

proof fn frames(front: Seq<char>, middle: Seq<char>, back: Seq<char>)
    ensures
        framed(front + middle + back, front, back),
{
    let text = front + middle + back;
    assert(text.take(front.len() as int) =~= front);
    assert(text.skip(text.len() - back.len()) =~= back);
}

/// Each device on a cable has a line of its own, in order: its id and its serial number, and how to
/// dial it by the same id. Where there are none, and where they could not be asked for, one line
/// says so.
pub proof fn devices_are_listed_in_order(devices: Vec<(u32, String)>, error: String)
    ensures
        devices@.len() > 0 ==> usb_listing(Ok(devices)).len() == devices@.len(),
        forall|i: int|
            0 <= i < devices@.len() ==> framed(
                #[trigger] usb_listing(Ok(devices))[i],
                "  ["@ + decimal(devices@[i].0 as int) + "] "@ + devices@[i].1@,
                "--device "@ + decimal(devices@[i].0 as int) + "`)"@,
            ),
        devices@.len() == 0 ==> usb_listing(Ok(devices)).len() == 1,
        usb_listing(Err(error)).len() == 1 && framed(usb_listing(Err(error))[0], seq![], error@),
{
    frames(seq![], "  usbmuxd unavailable: "@, error@);
    assert(Seq::<char>::empty() + "  usbmuxd unavailable: "@ =~= "  usbmuxd unavailable: "@);
    reveal_strlit(" (dial with `remo <command> --device ");
    reveal_strlit(" (dial with `remo <command> ");
    reveal_strlit("--device ");
    assert(" (dial with `remo <command> --device "@ =~= " (dial with `remo <command> "@
        + "--device "@);
    assert forall|i: int| 0 <= i < devices@.len() implies framed(
        #[trigger] usb_listing(Ok(devices))[i],
        "  ["@ + decimal(devices@[i].0 as int) + "] "@ + devices@[i].1@,
        "--device "@ + decimal(devices@[i].0 as int) + "`)"@,
    ) by {
        let id = decimal(devices@[i].0 as int);
        let front = "  ["@ + id + "] "@ + devices@[i].1@;
        let back = "--device "@ + id + "`)"@;
        frames(front, " (dial with `remo <command> "@, back);
        assert(usb_line(devices@[i]) =~= front + " (dial with `remo <command> "@ + back);
    }
}

/// Each service has a line of its own, in order, which begins with its name: one that was resolved
/// tells how to dial its address, one that was not tells its host and port.
pub proof fn services_are_listed_in_order(services: Vec<Service>, error: String)
    ensures
        services@.len() > 0 ==> service_listing(Ok(services)).len() == services@.len(),
        forall|i: int|
            0 <= i < services@.len() ==> (services@[i].address matches Some(address) ==> framed(
                #[trigger] service_listing(Ok(services))[i],
                "  "@ + services@[i].name@ + " -> "@ + page_url(address@, "1"@),
                "--addr "@ + address@ + ")"@,
            )),
        forall|i: int|
            0 <= i < services@.len() ==> (services@[i].address is None ==> framed(
                #[trigger] service_listing(Ok(services))[i],
                "  "@ + services@[i].name@,
                services@[i].host@ + ":"@ + decimal(services@[i].port as int),
            )),
        services@.len() == 0 ==> service_listing(Ok(services)).len() == 1,
        service_listing(Err(error)).len() == 1 && framed(
            service_listing(Err(error))[0],
            seq![],
            error@,
        ),
{
    frames(seq![], "  Bonjour unavailable: "@, error@);
    assert(Seq::<char>::empty() + "  Bonjour unavailable: "@ =~= "  Bonjour unavailable: "@);
    reveal_strlit(" (dial with --addr ");
    reveal_strlit(" (dial with ");
    reveal_strlit("--addr ");
    assert(" (dial with --addr "@ =~= " (dial with "@ + "--addr "@);
    assert forall|i: int| 0 <= i < services@.len() implies (services@[i].address matches Some(
        address,
    ) ==> framed(
        #[trigger] service_listing(Ok(services))[i],
        "  "@ + services@[i].name@ + " -> "@ + page_url(address@, "1"@),
        "--addr "@ + address@ + ")"@,
    )) by {
        if let Some(address) = services@[i].address {
            let front = "  "@ + services@[i].name@ + " -> "@ + page_url(address@, "1"@);
            let back = "--addr "@ + address@ + ")"@;
            frames(front, " (dial with "@, back);
            assert(service_line(services@[i]) =~= front + " (dial with "@ + back);
        }
    }
    assert forall|i: int| 0 <= i < services@.len() && services@[i].address is None implies framed(
        #[trigger] service_listing(Ok(services))[i],
        "  "@ + services@[i].name@,
        services@[i].host@ + ":"@ + decimal(services@[i].port as int),
    ) by {
        let front = "  "@ + services@[i].name@;
        let back = services@[i].host@ + ":"@ + decimal(services@[i].port as int);
        frames(front, " -> could not resolve "@, back);
        assert(service_line(services@[i]) =~= front + " -> could not resolve "@ + back);
    }
}

/// The names of capabilities are printed in their order, none lost and none added.
pub proof fn names_are_printed_in_order(names: Seq<Seq<char>>)
    ensures
        sorted(names).to_multiset() == names.to_multiset(),
        forall|i: int, j: int|
            0 <= i < j < sorted(names).len() ==> !text_before(
                #[trigger] sorted(names)[j],
                #[trigger] sorted(names)[i],
            ),
{
    let pairs = sorted_by_name(bare(names));
    sorted_by_name_never_descends(bare(names));
    assert forall|i: int, j: int| 0 <= i < j < sorted(names).len() implies !text_before(
        #[trigger] sorted(names)[j],
        #[trigger] sorted(names)[i],
    ) by {
        assert(!text_before(pairs[j].0, pairs[i].0));
    }
    let first = |entry: (Seq<char>, ())| entry.0;
    assert(bare(names).map_values(first) =~= names);
    assert(pairs.map_values(first) =~= sorted(names));
    same_entries_same_names(pairs, bare(names));
}

proof fn same_entries_same_names(a: Seq<(Seq<char>, ())>, b: Seq<(Seq<char>, ())>)
    requires
        a.to_multiset() == b.to_multiset(),
    ensures
        a.map_values(|entry: (Seq<char>, ())| entry.0).to_multiset() == b.map_values(
            |entry: (Seq<char>, ())| entry.0,
        ).to_multiset(),
    decreases a.len(),
{
    broadcast use vstd::seq_lib::group_to_multiset_ensures;

    let first = |entry: (Seq<char>, ())| entry.0;
    assert(a.to_multiset().len() == a.len());
    assert(b.to_multiset().len() == b.len());
    if a.len() == 0 {
        assert(a.map_values(first) =~= b.map_values(first));
    } else {
        let last = a.last();
        assert(a.to_multiset().count(last) > 0) by {
            assert(a.contains(last));
        }
        assert(b.contains(last));
        let at = choose|at: int| 0 <= at < b.len() && b[at] == last;
        let rest = b.remove(at);
        assert(a =~= a.drop_last().push(last));
        assert(a.drop_last().to_multiset() =~= a.to_multiset().remove(last));
        assert(rest.to_multiset() =~= b.to_multiset().remove(last));
        same_entries_same_names(a.drop_last(), rest);
        assert(a.map_values(first) =~= a.drop_last().map_values(first).push(last.0));
        assert(b.map_values(first).remove(at) =~= rest.map_values(first));
        assert(b.map_values(first)[at] == last.0);
        assert(b.map_values(first) =~= rest.map_values(first).insert(at, last.0));
    }
}

/// What is printed of a device and its app tells each by its own value, and says where one is not
/// known.
pub proof fn devices_and_apps_are_told(device: JsonView, app: JsonView, screen: Seq<char>)
    ensures
        ({
            let lines = info_listing(device, app, screen);
            &&& lines.len() == 10
            &&& device.string_field("name"@) matches Some(name) ==> framed(lines[1], "  Name:"@, name)
            &&& device.string_field("model"@) matches Some(model) ==> framed(
                lines[2],
                "  Model:"@,
                model,
            )
            &&& device.string_field("system_version"@) matches Some(version) ==> framed(
                lines[3],
                "  OS:"@,
                version,
            )
            &&& framed(lines[4], "  Screen:"@, screen)
            &&& app.string_field("display_name"@) matches Some(name) ==> framed(
                lines[7],
                "  Name:"@,
                name,
            )
            &&& app.string_field("bundle_id"@) matches Some(bundle) ==> framed(
                lines[8],
                "  Bundle:"@,
                bundle,
            )
            &&& app.string_field("version"@) matches Some(version) ==> framed(
                lines[9],
                "  Version: "@ + version + " ("@,
                seq![')'],
            )
            &&& device.field("name"@) is None ==> framed(lines[1], "  Name:"@, "unknown"@)
            &&& app.field("display_name"@) is None ==> framed(lines[7], "  Name:"@, "unknown"@)
        }),
{
    reveal_strlit("  Name:");
    reveal_strlit("  Name:    ");
    reveal_strlit("  Model:");
    reveal_strlit("  Model:   ");
    reveal_strlit("  OS:");
    reveal_strlit("  OS:      ");
    reveal_strlit("  Screen:");
    reveal_strlit("  Screen:  ");
    reveal_strlit("  Bundle:");
    reveal_strlit("  Bundle:  ");
    reveal_strlit(")");
    assert("  Name:    "@ =~= "  Name:"@ + seq![' ', ' ', ' ', ' ']);
    assert("  Model:   "@ =~= "  Model:"@ + seq![' ', ' ', ' ']);
    assert("  OS:      "@ =~= "  OS:"@ + seq![' ', ' ', ' ', ' ', ' ', ' ']);
    assert("  Screen:  "@ =~= "  Screen:"@ + seq![' ', ' ']);
    assert("  Bundle:  "@ =~= "  Bundle:"@ + seq![' ', ' ']);
    assert(")"@ =~= seq![')']);
    frames("  Name:"@, seq![' ', ' ', ' ', ' '], text_or(device, "name"@, "unknown"@));
    frames("  Model:"@, seq![' ', ' ', ' '], text_or(device, "model"@, "unknown"@));
    let system = text_or(device, "system_name"@, "?"@);
    let version = text_or(device, "system_version"@, "?"@);
    let gap = seq![' ', ' ', ' ', ' ', ' ', ' '] + system + " "@;
    frames("  OS:"@, gap, version);
    assert("  OS:      "@ + system + " "@ + version =~= "  OS:"@ + gap + version);
    frames("  Screen:"@, seq![' ', ' '], screen);
    frames("  Name:"@, seq![' ', ' ', ' ', ' '], text_or(app, "display_name"@, "unknown"@));
    frames("  Bundle:"@, seq![' ', ' '], text_or(app, "bundle_id"@, "unknown"@));
    frames(
        "  Version: "@ + text_or(app, "version"@, "?"@) + " ("@,
        text_or(app, "build"@, "?"@),
        seq![')'],
    );
}

/// A command goes to the device that is named, and only without one to the address.
pub proof fn devices_go_before_addresses(
    id: u32,
    address: String,
    to_device: Dial,
    to_address: Dial,
)
    requires
        call_ensures(dial, (Some(id), address), to_device),
        call_ensures(dial, (None, address), to_address),
    ensures
        to_device matches Dial::Usb(device) && device == id,
        to_address matches Dial::Tcp(place) && place@ == address@,
{
}

} // verus!
