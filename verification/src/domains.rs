//! The domains of an app, put together.
use crate::dispatcher::{Dispatcher, Stat};
use crate::domain_dom::{dom_methods, DomDomain};
use crate::domain_page::{page_methods, PageDomain};
use crate::domain_remo::{remo_method_list, remo_methods};
use crate::domain_storage::{storage_methods, StorageDomain};
use vstd::prelude::*;

verus! {

/// The place of the `Remo` domain among the domains of an app.
pub const REMO_DOMAIN: usize = 0;

/// The place of the `Page` domain among the domains of an app.
pub const PAGE_DOMAIN: usize = 1;

/// The place of the `DOM` domain among the domains of an app.
pub const DOM_DOMAIN: usize = 2;

/// The place of the `Storage` domain among the domains of an app.
pub const STORAGE_DOMAIN: usize = 3;

/// Every method that a domain of an app answers.
pub open spec fn answered_methods() -> Seq<Seq<char>> {
    remo_methods() + page_methods() + dom_methods() + storage_methods()
}

/// The place of a method among all, by its length, its eleventh letter and its first.
spec fn place(method: Seq<char>) -> int {
    let len = method.len();
    let eleventh = method[10];
    let first = method[0];
    if len == 11 {
        0
    } else if len == 14 {
        2
    } else if len == 15 {
        if eleventh == 'u' {
            16
        } else if eleventh == 'e' {
            18
        } else {
            19
        }
    } else if len == 16 {
        if eleventh == 'a' {
            3
        } else {
            31
        }
    } else if len == 17 {
        26
    } else if len == 18 {
        27
    } else if len == 19 {
        if eleventh == 'c' {
            7
        } else {
            14
        }
    } else if len == 20 {
        if eleventh == 'S' {
            6
        } else {
            13
        }
    } else if len == 21 {
        if eleventh == 'a' {
            1
        } else if eleventh == 't' && first == 'R' {
            4
        } else if eleventh == 't' && first == 'D' {
            17
        } else if eleventh == 'g' {
            24
        } else if eleventh == 'd' {
            25
        } else {
            33
        }
    } else if len == 22 {
        if eleventh == 'r' {
            5
        } else {
            9
        }
    } else if len == 25 {
        15
    } else if len == 26 {
        if eleventh == 'i' {
            23
        } else {
            35
        }
    } else if len == 27 {
        if eleventh == 't' {
            10
        } else if eleventh == 'i' {
            11
        } else if eleventh == 'p' {
            21
        } else {
            22
        }
    } else if len == 28 {
        if eleventh == 'm' {
            12
        } else {
            29
        }
    } else if len == 29 {
        if eleventh == '.' {
            28
        } else {
            32
        }
    } else if len == 30 {
        36
    } else if len == 31 {
        30
    } else if len == 32 {
        34
    } else if len == 35 {
        20
    } else if len == 38 {
        8
    } else {
        -1
    }
}

/// No method is answered by two domains, nor listed twice by one.
pub proof fn no_method_is_claimed_twice()
    ensures
        answered_methods().no_duplicates(),
{
    let all = answered_methods();
    assert(all.len() == 37);
    reveal_strlit("Remo.invoke");
    reveal_strlit("Remo.listCapabilities");
    reveal_strlit("Runtime.enable");
    reveal_strlit("Runtime.evaluate");
    reveal_strlit("Runtime.getProperties");
    reveal_strlit("Page.captureScreenshot");
    reveal_strlit("Page.startScreencast");
    reveal_strlit("Page.stopScreencast");
    reveal_strlit("Network.emulateNetworkConditionsByRule");
    reveal_strlit("Runtime.callFunctionOn");
    reveal_strlit("CSS.getPlatformFontsForNode");
    reveal_strlit("CSS.getEnvironmentVariables");
    reveal_strlit("CSS.takeComputedStyleUpdates");
    reveal_strlit("Page.getResourceTree");
    reveal_strlit("Page.getAppManifest");
    reveal_strlit("Page.getNavigationHistory");
    reveal_strlit("DOM.getDocument");
    reveal_strlit("DOM.requestChildNodes");
    reveal_strlit("DOM.resolveNode");
    reveal_strlit("DOM.getBoxModel");
    reveal_strlit("DOM.pushNodesByBackendIdsToFrontend");
    reveal_strlit("CSS.getComputedStyleForNode");
    reveal_strlit("CSS.getMatchedStylesForNode");
    reveal_strlit("CSS.getInlineStylesForNode");
    reveal_strlit("Overlay.highlightNode");
    reveal_strlit("Overlay.hideHighlight");
    reveal_strlit("DOMStorage.enable");
    reveal_strlit("DOMStorage.disable");
    reveal_strlit("DOMStorage.getDOMStorageItems");
    reveal_strlit("DOMStorage.setDOMStorageItem");
    reveal_strlit("DOMStorage.removeDOMStorageItem");
    reveal_strlit("DOMStorage.clear");
    reveal_strlit("Storage.getStorageKeyForFrame");
    reveal_strlit("Storage.getStorageKey");
    reveal_strlit("Storage.setStorageBucketTracking");
    reveal_strlit("Storage.clearDataForOrigin");
    reveal_strlit("Storage.clearDataForStorageKey");
    assert("Remo.invoke"@.len() == 11 && "Remo.invoke"@[10] == 'e' && "Remo.invoke"@[0] == 'R');
    assert("Remo.listCapabilities"@.len() == 21 && "Remo.listCapabilities"@[10] == 'a' && "Remo.listCapabilities"@[0] == 'R');
    assert("Runtime.enable"@.len() == 14 && "Runtime.enable"@[10] == 'a' && "Runtime.enable"@[0] == 'R');
    assert("Runtime.evaluate"@.len() == 16 && "Runtime.evaluate"@[10] == 'a' && "Runtime.evaluate"@[0] == 'R');
    assert("Runtime.getProperties"@.len() == 21 && "Runtime.getProperties"@[10] == 't' && "Runtime.getProperties"@[0] == 'R');
    assert("Page.captureScreenshot"@.len() == 22 && "Page.captureScreenshot"@[10] == 'r' && "Page.captureScreenshot"@[0] == 'P');
    assert("Page.startScreencast"@.len() == 20 && "Page.startScreencast"@[10] == 'S' && "Page.startScreencast"@[0] == 'P');
    assert("Page.stopScreencast"@.len() == 19 && "Page.stopScreencast"@[10] == 'c' && "Page.stopScreencast"@[0] == 'P');
    assert("Network.emulateNetworkConditionsByRule"@.len() == 38 && "Network.emulateNetworkConditionsByRule"@[10] == 'u' && "Network.emulateNetworkConditionsByRule"@[0] == 'N');
    assert("Runtime.callFunctionOn"@.len() == 22 && "Runtime.callFunctionOn"@[10] == 'l' && "Runtime.callFunctionOn"@[0] == 'R');
    assert("CSS.getPlatformFontsForNode"@.len() == 27 && "CSS.getPlatformFontsForNode"@[10] == 't' && "CSS.getPlatformFontsForNode"@[0] == 'C');
    assert("CSS.getEnvironmentVariables"@.len() == 27 && "CSS.getEnvironmentVariables"@[10] == 'i' && "CSS.getEnvironmentVariables"@[0] == 'C');
    assert("CSS.takeComputedStyleUpdates"@.len() == 28 && "CSS.takeComputedStyleUpdates"@[10] == 'm' && "CSS.takeComputedStyleUpdates"@[0] == 'C');
    assert("Page.getResourceTree"@.len() == 20 && "Page.getResourceTree"@[10] == 's' && "Page.getResourceTree"@[0] == 'P');
    assert("Page.getAppManifest"@.len() == 19 && "Page.getAppManifest"@[10] == 'p' && "Page.getAppManifest"@[0] == 'P');
    assert("Page.getNavigationHistory"@.len() == 25 && "Page.getNavigationHistory"@[10] == 'v' && "Page.getNavigationHistory"@[0] == 'P');
    assert("DOM.getDocument"@.len() == 15 && "DOM.getDocument"@[10] == 'u' && "DOM.getDocument"@[0] == 'D');
    assert("DOM.requestChildNodes"@.len() == 21 && "DOM.requestChildNodes"@[10] == 't' && "DOM.requestChildNodes"@[0] == 'D');
    assert("DOM.resolveNode"@.len() == 15 && "DOM.resolveNode"@[10] == 'e' && "DOM.resolveNode"@[0] == 'D');
    assert("DOM.getBoxModel"@.len() == 15 && "DOM.getBoxModel"@[10] == 'M' && "DOM.getBoxModel"@[0] == 'D');
    assert("DOM.pushNodesByBackendIdsToFrontend"@.len() == 35 && "DOM.pushNodesByBackendIdsToFrontend"@[10] == 'd' && "DOM.pushNodesByBackendIdsToFrontend"@[0] == 'D');
    assert("CSS.getComputedStyleForNode"@.len() == 27 && "CSS.getComputedStyleForNode"@[10] == 'p' && "CSS.getComputedStyleForNode"@[0] == 'C');
    assert("CSS.getMatchedStylesForNode"@.len() == 27 && "CSS.getMatchedStylesForNode"@[10] == 'c' && "CSS.getMatchedStylesForNode"@[0] == 'C');
    assert("CSS.getInlineStylesForNode"@.len() == 26 && "CSS.getInlineStylesForNode"@[10] == 'i' && "CSS.getInlineStylesForNode"@[0] == 'C');
    assert("Overlay.highlightNode"@.len() == 21 && "Overlay.highlightNode"@[10] == 'g' && "Overlay.highlightNode"@[0] == 'O');
    assert("Overlay.hideHighlight"@.len() == 21 && "Overlay.hideHighlight"@[10] == 'd' && "Overlay.hideHighlight"@[0] == 'O');
    assert("DOMStorage.enable"@.len() == 17 && "DOMStorage.enable"@[10] == '.' && "DOMStorage.enable"@[0] == 'D');
    assert("DOMStorage.disable"@.len() == 18 && "DOMStorage.disable"@[10] == '.' && "DOMStorage.disable"@[0] == 'D');
    assert("DOMStorage.getDOMStorageItems"@.len() == 29 && "DOMStorage.getDOMStorageItems"@[10] == '.' && "DOMStorage.getDOMStorageItems"@[0] == 'D');
    assert("DOMStorage.setDOMStorageItem"@.len() == 28 && "DOMStorage.setDOMStorageItem"@[10] == '.' && "DOMStorage.setDOMStorageItem"@[0] == 'D');
    assert("DOMStorage.removeDOMStorageItem"@.len() == 31 && "DOMStorage.removeDOMStorageItem"@[10] == '.' && "DOMStorage.removeDOMStorageItem"@[0] == 'D');
    assert("DOMStorage.clear"@.len() == 16 && "DOMStorage.clear"@[10] == '.' && "DOMStorage.clear"@[0] == 'D');
    assert("Storage.getStorageKeyForFrame"@.len() == 29 && "Storage.getStorageKeyForFrame"@[10] == 't' && "Storage.getStorageKeyForFrame"@[0] == 'S');
    assert("Storage.getStorageKey"@.len() == 21 && "Storage.getStorageKey"@[10] == 't' && "Storage.getStorageKey"@[0] == 'S');
    assert("Storage.setStorageBucketTracking"@.len() == 32 && "Storage.setStorageBucketTracking"@[10] == 't' && "Storage.setStorageBucketTracking"@[0] == 'S');
    assert("Storage.clearDataForOrigin"@.len() == 26 && "Storage.clearDataForOrigin"@[10] == 'e' && "Storage.clearDataForOrigin"@[0] == 'S');
    assert("Storage.clearDataForStorageKey"@.len() == 30 && "Storage.clearDataForStorageKey"@[10] == 'e' && "Storage.clearDataForStorageKey"@[0] == 'S');
    assert(all[0] == "Remo.invoke"@ && place(all[0]) == 0);
    assert(all[1] == "Remo.listCapabilities"@ && place(all[1]) == 1);
    assert(all[2] == "Runtime.enable"@ && place(all[2]) == 2);
    assert(all[3] == "Runtime.evaluate"@ && place(all[3]) == 3);
    assert(all[4] == "Runtime.getProperties"@ && place(all[4]) == 4);
    assert(all[5] == "Page.captureScreenshot"@ && place(all[5]) == 5);
    assert(all[6] == "Page.startScreencast"@ && place(all[6]) == 6);
    assert(all[7] == "Page.stopScreencast"@ && place(all[7]) == 7);
    assert(all[8] == "Network.emulateNetworkConditionsByRule"@ && place(all[8]) == 8);
    assert(all[9] == "Runtime.callFunctionOn"@ && place(all[9]) == 9);
    assert(all[10] == "CSS.getPlatformFontsForNode"@ && place(all[10]) == 10);
    assert(all[11] == "CSS.getEnvironmentVariables"@ && place(all[11]) == 11);
    assert(all[12] == "CSS.takeComputedStyleUpdates"@ && place(all[12]) == 12);
    assert(all[13] == "Page.getResourceTree"@ && place(all[13]) == 13);
    assert(all[14] == "Page.getAppManifest"@ && place(all[14]) == 14);
    assert(all[15] == "Page.getNavigationHistory"@ && place(all[15]) == 15);
    assert(all[16] == "DOM.getDocument"@ && place(all[16]) == 16);
    assert(all[17] == "DOM.requestChildNodes"@ && place(all[17]) == 17);
    assert(all[18] == "DOM.resolveNode"@ && place(all[18]) == 18);
    assert(all[19] == "DOM.getBoxModel"@ && place(all[19]) == 19);
    assert(all[20] == "DOM.pushNodesByBackendIdsToFrontend"@ && place(all[20]) == 20);
    assert(all[21] == "CSS.getComputedStyleForNode"@ && place(all[21]) == 21);
    assert(all[22] == "CSS.getMatchedStylesForNode"@ && place(all[22]) == 22);
    assert(all[23] == "CSS.getInlineStylesForNode"@ && place(all[23]) == 23);
    assert(all[24] == "Overlay.highlightNode"@ && place(all[24]) == 24);
    assert(all[25] == "Overlay.hideHighlight"@ && place(all[25]) == 25);
    assert(all[26] == "DOMStorage.enable"@ && place(all[26]) == 26);
    assert(all[27] == "DOMStorage.disable"@ && place(all[27]) == 27);
    assert(all[28] == "DOMStorage.getDOMStorageItems"@ && place(all[28]) == 28);
    assert(all[29] == "DOMStorage.setDOMStorageItem"@ && place(all[29]) == 29);
    assert(all[30] == "DOMStorage.removeDOMStorageItem"@ && place(all[30]) == 30);
    assert(all[31] == "DOMStorage.clear"@ && place(all[31]) == 31);
    assert(all[32] == "Storage.getStorageKeyForFrame"@ && place(all[32]) == 32);
    assert(all[33] == "Storage.getStorageKey"@ && place(all[33]) == 33);
    assert(all[34] == "Storage.setStorageBucketTracking"@ && place(all[34]) == 34);
    assert(all[35] == "Storage.clearDataForOrigin"@ && place(all[35]) == 35);
    assert(all[36] == "Storage.clearDataForStorageKey"@ && place(all[36]) == 36);
    assert forall|i: int, j: int| 0 <= i < all.len() && 0 <= j < all.len() && i != j implies all[i]
        != all[j] by {
        assert(place(all[i]) == i);
        assert(place(all[j]) == j);
    }
}

/// A dispatcher over the domains of an app.
pub fn build_dispatcher() -> (dispatcher: Dispatcher)
    ensures
        dispatcher.well_formed(),
        dispatcher.domain_count() == 4,
        dispatcher.costs() == Seq::<(Seq<char>, Stat)>::empty(),
        dispatcher.synthetic_id() == 1,
        forall|method: Seq<char>| #[trigger]
            dispatcher.route(method) == (if remo_methods().contains(method) {
                Some(REMO_DOMAIN)
            } else if page_methods().contains(method) {
                Some(PAGE_DOMAIN)
            } else if dom_methods().contains(method) {
                Some(DOM_DOMAIN)
            } else if storage_methods().contains(method) {
                Some(STORAGE_DOMAIN)
            } else {
                None::<usize>
            }),
{
    proof {
        no_method_is_claimed_twice();
        parts_are_free();
    }
    let mut dispatcher = Dispatcher::new();
    let remo = remo_method_list();
    dispatcher.register(&remo);
    let page = PageDomain::new().methods();
    dispatcher.register(&page);
    let dom = DomDomain::new().methods();
    dispatcher.register(&dom);
    let storage = StorageDomain::new().methods();
    dispatcher.register(&storage);
    dispatcher
}

/// The lists of the domains' methods hold no method twice, and share none.
proof fn parts_are_free()
    requires
        answered_methods().no_duplicates(),
    ensures
        remo_methods().no_duplicates(),
        page_methods().no_duplicates(),
        dom_methods().no_duplicates(),
        storage_methods().no_duplicates(),
        forall|i: int|
            0 <= i < page_methods().len() ==> !remo_methods().contains(
                #[trigger] page_methods()[i],
            ),
        forall|i: int|
            0 <= i < dom_methods().len() ==> !remo_methods().contains(#[trigger] dom_methods()[i])
                && !page_methods().contains(dom_methods()[i]),
        forall|i: int|
            0 <= i < storage_methods().len() ==> !remo_methods().contains(
                #[trigger] storage_methods()[i],
            ) && !page_methods().contains(storage_methods()[i]) && !dom_methods().contains(
                storage_methods()[i],
            ),
{
    let all = answered_methods();
    let remo = remo_methods();
    let page = page_methods();
    let dom = dom_methods();
    let storage = storage_methods();
    let a = remo.len();
    let b = a + page.len();
    let c = b + dom.len();
    assert forall|i: int| 0 <= i < remo.len() implies #[trigger] remo[i] == all[i] by {}
    assert forall|i: int| 0 <= i < page.len() implies #[trigger] page[i] == all[a + i] by {}
    assert forall|i: int| 0 <= i < dom.len() implies #[trigger] dom[i] == all[b + i] by {}
    assert forall|i: int| 0 <= i < storage.len() implies #[trigger] storage[i] == all[c + i] by {}
}

} // verus!
