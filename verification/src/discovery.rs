//! What the discovery endpoints answer: which target there is, and where it is reached.
//!
//! The addresses hold the host that was asked, so that they stay right through a forwarded port.
use crate::json::{no_entries, no_fields, with_fields, with_then_field, Json, JsonView};
use crate::text::joined3;
use crate::transport::page_path;
use vstd::prelude::*;

verus! {

/// The version of what a target speaks beyond the debugging protocol itself.
pub const REMO_PROTOCOL_VERSION: &'static str = "1.0";

/// What discovery says of the one target of a process.
#[derive(Debug)]
pub struct DiscoveryConfig {
    pub page_title: String,
    pub page_id: String,
}

/// The one target of an app on a device.
pub fn device_target(device: &str) -> (config: DiscoveryConfig)
    ensures
        config.page_title@ == "Remo "@ + device@,
        config.page_id@ == "1"@,
{
    let mut page_title = "Remo ".to_owned();
    page_title.append(device);
    DiscoveryConfig { page_title, page_id: "1".to_owned() }
}

/// Whether a byte of a header stands for a visible character, a space or a tab.
pub open spec fn is_visible(byte: u8) -> bool {
    32 <= byte < 127 || byte == 9
}

/// Whether all bytes of a header are visible.
pub open spec fn all_visible(bytes: Seq<u8>) -> bool {
    forall|i: int| 0 <= i < bytes.len() ==> is_visible(#[trigger] bytes[i])
}

/// The characters of visible bytes.
pub open spec fn visible_text(bytes: Seq<u8>) -> Seq<char> {
    Seq::new(bytes.len(), |i: int| bytes[i] as char)
}

/// The host that a request names, or the loopback address where it names none.
pub open spec fn named_host(header: Option<Seq<u8>>) -> Seq<char> {
    match header {
        Some(bytes) if all_visible(bytes) => visible_text(bytes),
        _ => "127.0.0.1"@,
    }
}

/// The host that a request names in its `Host` header, or the loopback address where it names none.
pub fn host_header(header: Option<&[u8]>) -> (host: String)
    ensures
        host@ == named_host(match header {
            Some(bytes) => Some(bytes@),
            None => None,
        }),
{
    match header {
        Some(bytes) => {
            let mut host = String::new();
            let mut i: usize = 0;
            while i < bytes.len()
                invariant
                    header == Some(bytes),
                    i <= bytes@.len(),
                    forall|j: int| 0 <= j < i ==> is_visible(#[trigger] bytes@[j]),
                    host@ == visible_text(bytes@.take(i as int)),
                decreases bytes.len() - i,
            {
                let byte: u8 = bytes[i];
                if !(byte >= 32 && byte < 127 || byte == 9) {
                    assert(!all_visible(bytes@)) by {
                        assert(!is_visible(bytes@[i as int]));
                    }
                    return "127.0.0.1".to_owned();
                }
                host.push(byte as char);
                assert(visible_text(bytes@.take(i + 1)) =~= visible_text(
                    bytes@.take(i as int),
                ).push(byte as char));
                i = i + 1;
            }
            assert(bytes@.take(i as int) =~= bytes@);
            host
        },
        None => "127.0.0.1".to_owned(),
    }
}

/// Where a page is, without the scheme.
pub open spec fn page_address(host: Seq<char>, page_id: Seq<char>) -> Seq<char> {
    host + page_path(page_id)
}

/// The WebSocket address of a page.
pub open spec fn page_url(host: Seq<char>, page_id: Seq<char>) -> Seq<char> {
    "ws://"@ + page_address(host, page_id)
}

fn page_place(host: &str, page_id: &str) -> (address: String)
    ensures
        address@ == page_address(host@, page_id@),
{
    let address = joined3(host, "/devtools/page/", page_id);
    assert(address@ =~= page_address(host@, page_id@));
    address
}

/// The WebSocket address of a page.
pub fn debugger_url(host: &str, page_id: &str) -> (url: String)
    ensures
        url@ == page_url(host@, page_id@),
{
    let mut url = "ws://".to_owned();
    url.append(page_place(host, page_id).as_str());
    url
}

/// The address of the console page.
pub open spec fn console_page(host: Seq<char>) -> Seq<char> {
    "http://"@ + host + "/console"@
}

/// The address of the console page.
pub fn console_url(host: &str) -> (url: String)
    ensures
        url@ == console_page(host@),
{
    joined3("http://", host, "/console")
}

/// What `/json/version` answers.
pub open spec fn version_view(title: Seq<char>, page_id: Seq<char>, host: Seq<char>) -> JsonView {
    no_entries().with("Browser"@, JsonView::Text("Remo/"@ + title)).with(
        "Protocol-Version"@,
        JsonView::Text("1.3"@),
    ).with("remoProtocolVersion"@, JsonView::Text(REMO_PROTOCOL_VERSION@)).with(
        "webSocketDebuggerUrl"@,
        JsonView::Text(page_url(host, page_id)),
    ).with("remoConsoleUrl"@, JsonView::Text(console_page(host)))
}

/// What `/json/version` answers.
pub fn version(config: &DiscoveryConfig, host: &str) -> (json: Json)
    ensures
        json@ == version_view(config.page_title@, config.page_id@, host@),
{
    let mut browser = "Remo/".to_owned();
    browser.append(config.page_title.as_str());
    Json::empty().with("Browser", Json::Text(browser)).with(
        "Protocol-Version",
        Json::text("1.3"),
    ).with("remoProtocolVersion", Json::text(REMO_PROTOCOL_VERSION)).with(
        "webSocketDebuggerUrl",
        Json::Text(debugger_url(host, config.page_id.as_str())),
    ).with("remoConsoleUrl", Json::Text(console_url(host)))
}

/// The one target in what `/json` and `/json/list` answer.
pub open spec fn target_view(title: Seq<char>, page_id: Seq<char>, host: Seq<char>) -> JsonView {
    no_entries().with("id"@, JsonView::Text(page_id)).with("type"@, JsonView::Text("page"@)).with(
        "title"@,
        JsonView::Text(title),
    ).with("description"@, JsonView::Text(""@)).with("url"@, JsonView::Text("remo://app"@)).with(
        "devtoolsFrontendUrl"@,
        JsonView::Text("/devtools/inspector.html?ws="@ + page_address(host, page_id)),
    ).with("webSocketDebuggerUrl"@, JsonView::Text(page_url(host, page_id)))
}

/// What `/json` and `/json/list` answer.
pub fn list(config: &DiscoveryConfig, host: &str) -> (json: Json)
    ensures
        json@ == JsonView::Array(
            seq![target_view(config.page_title@, config.page_id@, host@)],
        ),
{
    let mut frontend_url = "/devtools/inspector.html?ws=".to_owned();
    frontend_url.append(page_place(host, config.page_id.as_str()).as_str());
    let target = Json::empty().with("id", Json::text(config.page_id.as_str())).with(
        "type",
        Json::text("page"),
    ).with("title", Json::text(config.page_title.as_str())).with(
        "description",
        Json::text(""),
    ).with("url", Json::text("remo://app")).with(
        "devtoolsFrontendUrl",
        Json::Text(frontend_url),
    ).with("webSocketDebuggerUrl", Json::Text(debugger_url(host, config.page_id.as_str())));
    let items = vec![target];
    assert(crate::json::trees(items@) =~= seq![
        target_view(config.page_title@, config.page_id@, host@),
    ]);
    Json::array(items)
}

/// The version and the list of targets give one WebSocket address, which holds the host that was
/// asked.
pub proof fn one_address_everywhere(title: Seq<char>, page_id: Seq<char>, host: Seq<char>)
    ensures
        version_view(title, page_id, host).string_field("webSocketDebuggerUrl"@) == target_view(
            title,
            page_id,
            host,
        ).string_field("webSocketDebuggerUrl"@),
        target_view(title, page_id, host).string_field("webSocketDebuggerUrl"@) == Some(
            "ws://"@ + host + "/devtools/page/"@ + page_id,
        ),
{
    reveal_strlit("remoConsoleUrl");
    reveal_strlit("webSocketDebuggerUrl");
    assert("remoConsoleUrl"@.len() == 14);
    assert("webSocketDebuggerUrl"@.len() == 20);
    let url = JsonView::Text(page_url(host, page_id));
    let first = no_entries().with("Browser"@, JsonView::Text("Remo/"@ + title)).with(
        "Protocol-Version"@,
        JsonView::Text("1.3"@),
    ).with("remoProtocolVersion"@, JsonView::Text(REMO_PROTOCOL_VERSION@));
    with_then_field(first, "webSocketDebuggerUrl"@, url, "webSocketDebuggerUrl"@);
    with_then_field(
        first.with("webSocketDebuggerUrl"@, url),
        "remoConsoleUrl"@,
        JsonView::Text(console_page(host)),
        "webSocketDebuggerUrl"@,
    );
    let target = no_entries().with("id"@, JsonView::Text(page_id)).with(
        "type"@,
        JsonView::Text("page"@),
    ).with("title"@, JsonView::Text(title)).with("description"@, JsonView::Text(""@)).with(
        "url"@,
        JsonView::Text("remo://app"@),
    ).with(
        "devtoolsFrontendUrl"@,
        JsonView::Text("/devtools/inspector.html?ws="@ + page_address(host, page_id)),
    );
    with_then_field(target, "webSocketDebuggerUrl"@, url, "webSocketDebuggerUrl"@);
    assert(page_url(host, page_id) =~= "ws://"@ + host + "/devtools/page/"@ + page_id);
}

/// What `/json/version` and `/json` say of a target: its title, its id, and where it, its console
/// and its inspector are, all at the host that was asked.
pub proof fn targets_are_described(title: Seq<char>, page_id: Seq<char>, host: Seq<char>)
    ensures
        ({
            let version = version_view(title, page_id, host);
            &&& version.string_field("Browser"@) == Some("Remo/"@ + title)
            &&& version.string_field("Protocol-Version"@) == Some("1.3"@)
            &&& version.string_field("remoProtocolVersion"@) == Some("1.0"@)
            &&& version.string_field("remoConsoleUrl"@) == Some("http://"@ + host + "/console"@)
        }),
        ({
            let target = target_view(title, page_id, host);
            &&& target.string_field("id"@) == Some(page_id)
            &&& target.string_field("type"@) == Some("page"@)
            &&& target.string_field("title"@) == Some(title)
            &&& target.string_field("description"@) == Some(Seq::<char>::empty())
            &&& target.string_field("url"@) == Some("remo://app"@)
            &&& target.string_field("devtoolsFrontendUrl"@) == Some(
                "/devtools/inspector.html?ws="@ + host + "/devtools/page/"@ + page_id,
            )
        }),
{
    broadcast use {with_fields, no_fields};
    discovery_names();
    reveal_strlit("");
    assert(""@ =~= seq![]);
    assert("/devtools/inspector.html?ws="@ + page_address(host, page_id)
        =~= "/devtools/inspector.html?ws="@ + host + "/devtools/page/"@ + page_id);
}

proof fn discovery_names()
    ensures
        "Browser"@ != "Protocol-Version"@,
        "Browser"@ != "remoProtocolVersion"@,
        "Browser"@ != "webSocketDebuggerUrl"@,
        "Browser"@ != "remoConsoleUrl"@,
        "Protocol-Version"@ != "remoProtocolVersion"@,
        "Protocol-Version"@ != "webSocketDebuggerUrl"@,
        "Protocol-Version"@ != "remoConsoleUrl"@,
        "remoProtocolVersion"@ != "webSocketDebuggerUrl"@,
        "remoProtocolVersion"@ != "remoConsoleUrl"@,
        "webSocketDebuggerUrl"@ != "remoConsoleUrl"@,
        "id"@ != "type"@,
        "id"@ != "title"@,
        "id"@ != "description"@,
        "id"@ != "url"@,
        "id"@ != "devtoolsFrontendUrl"@,
        "id"@ != "webSocketDebuggerUrl"@,
        "type"@ != "title"@,
        "type"@ != "description"@,
        "type"@ != "url"@,
        "type"@ != "devtoolsFrontendUrl"@,
        "type"@ != "webSocketDebuggerUrl"@,
        "title"@ != "description"@,
        "title"@ != "url"@,
        "title"@ != "devtoolsFrontendUrl"@,
        "title"@ != "webSocketDebuggerUrl"@,
        "description"@ != "url"@,
        "description"@ != "devtoolsFrontendUrl"@,
        "description"@ != "webSocketDebuggerUrl"@,
        "url"@ != "devtoolsFrontendUrl"@,
        "url"@ != "webSocketDebuggerUrl"@,
        "devtoolsFrontendUrl"@ != "webSocketDebuggerUrl"@,
{
    reveal_strlit("Browser");
    reveal_strlit("Protocol-Version");
    reveal_strlit("remoProtocolVersion");
    reveal_strlit("webSocketDebuggerUrl");
    reveal_strlit("remoConsoleUrl");
    reveal_strlit("id");
    reveal_strlit("type");
    reveal_strlit("title");
    reveal_strlit("description");
    reveal_strlit("url");
    reveal_strlit("devtoolsFrontendUrl");
    assert("Browser"@.len() == 7);
    assert("Protocol-Version"@.len() == 16);
    assert("remoProtocolVersion"@.len() == 19);
    assert("webSocketDebuggerUrl"@.len() == 20);
    assert("remoConsoleUrl"@.len() == 14);
    assert("id"@.len() == 2);
    assert("type"@.len() == 4);
    assert("title"@.len() == 5);
    assert("description"@.len() == 11);
    assert("url"@.len() == 3);
    assert("devtoolsFrontendUrl"@.len() == 19);
}


/// A host is taken just as it is named, character by character, where every byte of the header is
/// a printable ASCII character, a space or a tab; with any other byte, and without a header, it is
/// the loopback address.
pub proof fn hosts_are_as_named(bytes: Seq<u8>)
    ensures
        (forall|i: int|
            0 <= i < bytes.len() ==> 0x20 <= #[trigger] bytes[i] <= 0x7e || bytes[i] == 0x09) ==> {
            &&& named_host(Some(bytes)).len() == bytes.len()
            &&& forall|i: int|
                0 <= i < bytes.len() ==> #[trigger] named_host(Some(bytes))[i] as int == bytes[i]
        },
        (exists|i: int|
            0 <= i < bytes.len() && !(0x20 <= #[trigger] bytes[i] <= 0x7e || bytes[i] == 0x09))
            ==> named_host(Some(bytes)) == "127.0.0.1"@,
        named_host(None) == "127.0.0.1"@,
{
    if forall|i: int|
        0 <= i < bytes.len() ==> 0x20 <= #[trigger] bytes[i] <= 0x7e || bytes[i] == 0x09 {
        assert(all_visible(bytes));
        assert forall|i: int| 0 <= i < bytes.len() implies #[trigger] named_host(
            Some(bytes),
        )[i] as int == bytes[i] by {
            assert(is_visible(bytes[i]));
        }
    } else {
        let i = choose|i: int|
            0 <= i < bytes.len() && !(0x20 <= #[trigger] bytes[i] <= 0x7e || bytes[i] == 0x09);
        assert(!is_visible(bytes[i]));
    }
}

} // verus!
