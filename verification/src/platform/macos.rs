use vstd::prelude::*;

use crate::error::{Error, Invalid};
use crate::models::{is_filled, is_filled_list, opt_view, CanShareResult, ShareOptions};

verus! {

/// Temporary files of macOS shares are removed by the plugin's file manager,
/// so there is nothing more to do here.
pub fn cleanup() -> (res: Result<(), Error>)
    ensures
        res is Ok,
{
    Ok(())
}

/// macOS always offers the sharing service.
pub fn can_share() -> (res: Result<CanShareResult, Error>)
    ensures
        res matches Ok(r) && r.value,
{
    Ok(CanShareResult { value: true })
}

/// One entry handed to the macOS sharing service picker.
#[derive(Debug)]
pub enum MacShareItem {
    /// The request's URL, as parsed by `NSURL`.
    Url(String),
    /// The request's text.
    Text(String),
    /// The file at this position of `files`, written to a temporary file first.
    File(usize),
    /// A file on disk, shared from its own path.
    Path(String),
}

/// The model of a [`MacShareItem`].
pub enum MacItem {
    Url(Seq<char>),
    Text(Seq<char>),
    File(int),
    Path(Seq<char>),
}

impl View for MacShareItem {
    type V = MacItem;

    open spec fn view(&self) -> MacItem {
        match self {
            MacShareItem::Url(u) => MacItem::Url(u@),
            MacShareItem::Text(t) => MacItem::Text(t@),
            MacShareItem::File(i) => MacItem::File(*i as int),
            MacShareItem::Path(p) => MacItem::Path(p@),
        }
    }
}

/// What the macOS share sheet is given: the subject that sharing services
/// receive, and the items in order.
#[derive(Debug)]
pub struct MacSharePlan {
    pub subject: Option<String>,
    pub items: Vec<MacShareItem>,
}

/// The request carries files, by content or by path.
pub open spec fn mac_has_files(o: ShareOptions) -> bool {
    is_filled_list(o.files) || is_filled_list(o.file_paths)
}

/// When files are shared, the title (else the text) becomes the subject.
pub open spec fn mac_subject(o: ShareOptions) -> Option<Seq<char>> {
    if mac_has_files(o) {
        match o.title {
            Some(t) => Some(t@),
            None => opt_view(o.text),
        }
    } else {
        None
    }
}

/// The items shared on macOS: without files, the URL (when `NSURL` accepted
/// it) and then the text; then every file and every file path, in order.
pub open spec fn mac_items(o: ShareOptions, url_parses: bool) -> Seq<MacItem> {
    let url_item: Seq<MacItem> = if is_filled(o.url) && url_parses {
        seq![MacItem::Url(o.url.unwrap()@)]
    } else {
        seq![]
    };
    let text_item: Seq<MacItem> = if is_filled(o.text) {
        seq![MacItem::Text(o.text.unwrap()@)]
    } else {
        seq![]
    };
    let lead: Seq<MacItem> = if mac_has_files(o) {
        seq![]
    } else {
        url_item + text_item
    };
    let files: Seq<MacItem> = match o.files {
        Some(fs) => Seq::new(fs@.len(), |i: int| MacItem::File(i)),
        None => seq![],
    };
    let paths: Seq<MacItem> = match o.file_paths {
        Some(ps) => ps@.map_values(|p: String| MacItem::Path(p@)),
        None => seq![],
    };
    lead + files + paths
}

/// Plans a macOS share. `url_parses` is whether `NSURL` accepted the
/// request's URL. A request with nothing to share is refused.
pub fn mac_share_plan(options: &ShareOptions, url_parses: bool) -> (res: Result<MacSharePlan, Error>)
    ensures
        mac_items(*options, url_parses).len() == 0 ==> res matches Err(
            Error::InvalidArgs(Invalid::NothingToShare),
        ),
        mac_items(*options, url_parses).len() > 0 ==> (res matches Ok(p) && p.items@.map_values(
            |x: MacShareItem| x@,
        ) =~= mac_items(*options, url_parses) && opt_view(p.subject) == mac_subject(*options)),
{
    let has_files = match &options.files {
        Some(f) => f.len() > 0,
        None => false,
    } || match &options.file_paths {
        Some(p) => p.len() > 0,
        None => false,
    };
    let subject = if has_files {
        match &options.title {
            Some(t) => Some(t.clone()),
            None => match &options.text {
                Some(t) => Some(t.clone()),
                None => None,
            },
        }
    } else {
        None
    };
    let ghost target = mac_items(*options, url_parses);
    let mut items: Vec<MacShareItem> = Vec::new();
    if !has_files {
        if let Some(u) = &options.url {
            if !u.as_str().is_empty() && url_parses {
                items.push(MacShareItem::Url(u.clone()));
            }
        }
        if let Some(t) = &options.text {
            if !t.as_str().is_empty() {
                items.push(MacShareItem::Text(t.clone()));
            }
        }
    }
    let ghost lead = items@.map_values(|x: MacShareItem| x@);
    let n_files: usize = match &options.files {
        Some(fs) => fs.len(),
        None => 0,
    };
    let mut i: usize = 0;
    while i < n_files
        invariant
            n_files == match options.files {
                Some(fs) => fs@.len(),
                None => 0,
            },
            i <= n_files,
            items@.map_values(|x: MacShareItem| x@) =~= lead + Seq::new(
                i as nat,
                |k: int| MacItem::File(k),
            ),
        decreases n_files - i,
    {
        let ghost before = items@;
        items.push(MacShareItem::File(i));
        assert(items@ =~= before.push(MacShareItem::File(i)));
        assert(items@.map_values(|x: MacShareItem| x@) =~= before.map_values(
            |x: MacShareItem| x@,
        ).push(MacItem::File(i as int)));
        i = i + 1;
    }
    let ghost with_files = items@.map_values(|x: MacShareItem| x@);
    if let Some(paths) = &options.file_paths {
        let mut j: usize = 0;
        while j < paths.len()
            invariant
                j <= paths.len(),
                items@.map_values(|x: MacShareItem| x@) =~= with_files + paths@.take(
                    j as int,
                ).map_values(|p: String| MacItem::Path(p@)),
            decreases paths.len() - j,
        {
            let ghost before = items@;
            let p = paths[j].clone();
            items.push(MacShareItem::Path(p));
            assert(items@ =~= before.push(MacShareItem::Path(p)));
            assert(items@.map_values(|x: MacShareItem| x@) =~= before.map_values(
                |x: MacShareItem| x@,
            ).push(MacItem::Path(p@)));
            assert(paths@.take(j + 1).map_values(|p: String| MacItem::Path(p@)) =~= paths@.take(
                j as int,
            ).map_values(|p: String| MacItem::Path(p@)).push(MacItem::Path(p@)));
            j = j + 1;
        }
        assert(paths@.take(paths.len() as int) =~= paths@);
    }
    assert(items@.map_values(|x: MacShareItem| x@) =~= target);
    if items.len() == 0 {
        return Err(Error::InvalidArgs(Invalid::NothingToShare));
    }
    Ok(MacSharePlan { subject, items })
}

/// What the share sheet reports to the plugin's delegate.
#[derive(Debug, Clone, Copy, PartialEq, Eq, Structural)]
pub enum PickerEvent {
    /// The picker closed without a sharing service being chosen.
    ClosedWithoutService,
    /// A sharing service was chosen; it reports back later.
    ServiceChosen,
    /// The chosen service shared the items.
    Shared,
    /// The chosen service failed to share the items.
    Failed,
}

/// How a share ended, as reported to the waiting caller.
#[derive(Debug, Clone, Copy, PartialEq, Eq, Structural)]
pub enum ShareOutcome {
    Completed,
    Failed,
}

/// The delegate's response to an event: whether it still waits for an
/// outcome, the outcome to hand to the caller, and whether it leaves the list
/// of active delegates.
#[derive(Debug, Clone, Copy)]
pub struct DelegateStep {
    pub waiting: bool,
    pub deliver: Option<ShareOutcome>,
    pub release_delegate: bool,
}

/// The delegate's step from `waiting` (whether the caller has not yet been
/// given an outcome) on `event`: choosing a service changes nothing; any
/// other event ends the share, hands its outcome to the caller only if the
/// caller is still waiting, and releases the delegate.
pub open spec fn delegate_next(waiting: bool, event: PickerEvent) -> DelegateStep {
    if event == PickerEvent::ServiceChosen {
        DelegateStep { waiting, deliver: None, release_delegate: false }
    } else {
        let outcome = if event == PickerEvent::Failed {
            ShareOutcome::Failed
        } else {
            ShareOutcome::Completed
        };
        DelegateStep {
            waiting: false,
            deliver: if waiting {
                Some(outcome)
            } else {
                None
            },
            release_delegate: true,
        }
    }
}

/// Computes [`delegate_next`].
pub fn delegate_step(waiting: bool, event: PickerEvent) -> (step: DelegateStep)
    ensures
        step == delegate_next(waiting, event),
{
    match event {
        PickerEvent::ServiceChosen => DelegateStep { waiting, deliver: None, release_delegate: false },
        PickerEvent::ClosedWithoutService | PickerEvent::Shared | PickerEvent::Failed => {
            let outcome = match event {
                PickerEvent::Failed => ShareOutcome::Failed,
                _ => ShareOutcome::Completed,
            };
            DelegateStep {
                waiting: false,
                deliver: if waiting {
                    Some(outcome)
                } else {
                    None
                },
                release_delegate: true,
            }
        },
    }
}

/// The first position of `target` in `addresses`.
pub fn first_position(addresses: &Vec<usize>, target: usize) -> (r: Option<usize>)
    ensures
        match r {
            Some(k) => k < addresses.len() && addresses@[k as int] == target && forall|j: int|
                0 <= j < k ==> addresses@[j] != target,
            None => forall|j: int| 0 <= j < addresses.len() ==> addresses@[j] != target,
        },
{
    let mut i: usize = 0;
    while i < addresses.len()
        invariant
            i <= addresses.len(),
            forall|j: int| 0 <= j < i ==> addresses@[j] != target,
        decreases addresses.len() - i,
    {
        if addresses[i] == target {
            return Some(i);
        }
        i = i + 1;
    }
    None
}

} // verus!
