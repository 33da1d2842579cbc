//! The tracking issue that is filed when the audit found advisories: its
//! title, its body, and what of it goes on the wire.
use crate::advisory::RustsecView;
use crate::report::{ascending, ids_of, parse, report_reading, AdvisoryReportSet};
use crate::split::{join, strings};
use vstd::prelude::*;
use vstd::string::StringExecFns;

verus! {

/// What a section of the body begins with, before the identifier.
pub const SECTION_HEAD: &'static str = "# \u{203c}\u{fe0f} ";

/// What stands between the identifier and the address.
pub const SECTION_MARK: &'static str = " \u{203c}\u{fe0f}\n";

/// What opens the quoted block, after the address.
pub const QUOTE_OPEN: &'static str = "\n\n````\n";

/// What closes the quoted block and the section.
pub const QUOTE_CLOSE: &'static str = "\n````\n\n";

/// The title of the issue: the identifiers with a comma and a space between
/// each two, and the empty text where there is none.
pub open spec fn title_of(ids: Seq<Seq<char>>) -> Seq<char> {
    join(ids, seq![',', ' '])
}

/// The section of the body that shows one advisory: a heading with its
/// identifier, the address of its page, and its block as the audit tool
/// printed it, quoted.
pub open spec fn section_of(record: RustsecView) -> Seq<char> {
    SECTION_HEAD@ + record.id + SECTION_MARK@ + record.url + QUOTE_OPEN@ + record.raw
        + QUOTE_CLOSE@
}

/// The body of the issue: one section for each advisory, in order.
pub open spec fn body_of(records: Seq<RustsecView>) -> Seq<char>
    decreases records.len(),
{
    if records.len() == 0 {
        Seq::empty()
    } else {
        body_of(records.drop_last()) + section_of(records.last())
    }
}

/// Composes the title of the issue from the identifiers of the set, in
/// ascending order.
pub fn generate_title(rustsec_map: &AdvisoryReportSet) -> (title: String)
    requires
        rustsec_map.wf(),
    ensures
        title@ == title_of(rustsec_map.ids()),
        ascending(rustsec_map.ids()),
        rustsec_map.records().len() == 0 ==> title@ == Seq::<char>::empty(),
{
    let ghost ids = rustsec_map.ids();
    let mut title = String::new();
    let n = rustsec_map.len();
    let mut i: usize = 0;
    assert(ids.take(0) == Seq::<Seq<char>>::empty());
    while i < n
        invariant
            i <= n,
            n == rustsec_map.records().len(),
            ids == rustsec_map.ids(),
            title@ == title_of(ids.take(i as int)),
        decreases n - i,
    {
        if i > 0 {
            proof {
                reveal_strlit(", ");
            }
            assert(", "@ == seq![',', ' ']);
            title.append(", ");
        }
        title.append(rustsec_map.record(i).id.as_str());
        proof {
            let now = ids.take(i + 1);
            assert(now.drop_last() == ids.take(i as int));
            assert(now.last() == rustsec_map.records()[i as int].id);
            if i == 0 {
                assert(now[0] == now.last());
            }
        }
        i += 1;
    }
    assert(ids.take(ids.len() as int) == ids);
    title
}

/// Composes the body of the issue: the sections of the set's advisories,
/// in ascending order of identifier.
pub fn generate_body(rustsec_map: &AdvisoryReportSet) -> (body: String)
    requires
        rustsec_map.wf(),
    ensures
        body@ == body_of(rustsec_map.records()),
{
    let ghost records = rustsec_map.records();
    let mut body = String::new();
    let n = rustsec_map.len();
    let mut i: usize = 0;
    assert(records.take(0) == Seq::<RustsecView>::empty());
    while i < n
        invariant
            i <= n,
            n == records.len(),
            records == rustsec_map.records(),
            body@ == body_of(records.take(i as int)),
        decreases n - i,
    {
        let record = rustsec_map.record(i);
        body.append(SECTION_HEAD);
        body.append(record.id.as_str());
        body.append(SECTION_MARK);
        body.append(record.url.as_str());
        body.append(QUOTE_OPEN);
        body.append(record.raw.as_str());
        body.append(QUOTE_CLOSE);
        proof {
            let now = records.take(i + 1);
            assert(now.drop_last() == records.take(i as int));
            assert(now.last() == record@);
            assert(body@ == body_of(records.take(i as int)) + section_of(record@));
        }
        i += 1;
    }
    assert(records.take(records.len() as int) == records);
    body
}

/// An issue as the tracker takes it.
#[derive(Clone, Debug)]
pub struct Issue {
    /// The title. Every issue has one.
    pub title: String,
    /// The text of the issue.
    pub body: Option<String>,
    /// The number of the milestone to put the issue under.
    pub milestone: Option<usize>,
    /// The labels to put on the issue.
    pub labels: Option<Vec<String>>,
    /// The logins of the users to assign the issue to.
    pub assignees: Option<Vec<String>>,
}

/// The value of one member of the object that goes on the wire.
#[derive(Clone, Debug)]
pub enum WireValue {
    /// A text.
    Text(String),
    /// A number.
    Number(usize),
    /// A list of texts.
    List(Vec<String>),
}

/// One member of the object that goes on the wire: its name and its value.
#[derive(Clone, Debug)]
pub struct WireMember {
    /// The member's name.
    pub name: String,
    /// The member's value.
    pub value: WireValue,
}

/// A `WireValue` with its texts as sequences of characters.
pub ghost enum WireValueView {
    Text(Seq<char>),
    Number(usize),
    List(Seq<Seq<char>>),
}

impl View for WireValue {
    type V = WireValueView;

    open spec fn view(&self) -> WireValueView {
        match self {
            WireValue::Text(text) => WireValueView::Text(text@),
            WireValue::Number(n) => WireValueView::Number(*n),
            WireValue::List(items) => WireValueView::List(strings(items@)),
        }
    }
}

impl View for WireMember {
    type V = (Seq<char>, WireValueView);

    open spec fn view(&self) -> (Seq<char>, WireValueView) {
        (self.name@, self.value@)
    }
}

/// The members that a vector holds, as names and values.
pub open spec fn members(v: Seq<WireMember>) -> Seq<(Seq<char>, WireValueView)> {
    v.map_values(|m: WireMember| m@)
}

/// The one member `(name, value)` where there is a value, and no member
/// where there is none.
pub open spec fn member_if_set(name: Seq<char>, value: Option<WireValueView>) -> Seq<
    (Seq<char>, WireValueView),
> {
    match value {
        Some(v) => seq![(name, v)],
        None => Seq::empty(),
    }
}

impl Issue {
    /// The members of the object that stands for the issue on the wire, in
    /// order: the title, then each of the body, the milestone, the labels
    /// and the assignees that is set. A field that is not set has no
    /// member at all.
    pub open spec fn wire(&self) -> Seq<(Seq<char>, WireValueView)> {
        seq![("title"@, WireValueView::Text(self.title@))] + member_if_set(
            "body"@,
            match self.body {
                Some(text) => Some(WireValueView::Text(text@)),
                None => None,
            },
        ) + member_if_set(
            "milestone"@,
            match self.milestone {
                Some(n) => Some(WireValueView::Number(n)),
                None => None,
            },
        ) + member_if_set(
            "labels"@,
            match self.labels {
                Some(items) => Some(WireValueView::List(strings(items@))),
                None => None,
            },
        ) + member_if_set(
            "assignees"@,
            match self.assignees {
                Some(items) => Some(WireValueView::List(strings(items@))),
                None => None,
            },
        )
    }

    /// Lists the members that go on the wire for this issue.
    pub fn payload(&self) -> (payload: Vec<WireMember>)
        ensures
            members(payload@) == self.wire(),
    {
        let mut payload: Vec<WireMember> = Vec::new();
        payload.push(
            WireMember { name: "title".to_string(), value: WireValue::Text(self.title.clone()) },
        );
        assert(members(payload@) == seq![("title"@, WireValueView::Text(self.title@))]);
        let ghost so_far = members(payload@);
        match &self.body {
            Some(text) => {
                payload.push(
                    WireMember { name: "body".to_string(), value: WireValue::Text(text.clone()) },
                );
                assert(members(payload@) == so_far.push(("body"@, WireValueView::Text(text@))));
            },
            None => {},
        }
        let ghost so_far = members(payload@);
        match self.milestone {
            Some(n) => {
                payload.push(
                    WireMember { name: "milestone".to_string(), value: WireValue::Number(n) },
                );
                assert(members(payload@) == so_far.push(("milestone"@, WireValueView::Number(n))));
            },
            None => {},
        }
        let ghost so_far = members(payload@);
        match &self.labels {
            Some(items) => {
                let list = copy_strings(items);
                payload.push(
                    WireMember { name: "labels".to_string(), value: WireValue::List(list) },
                );
                assert(members(payload@) == so_far.push(
                    ("labels"@, WireValueView::List(strings(items@))),
                ));
            },
            None => {},
        }
        let ghost so_far = members(payload@);
        match &self.assignees {
            Some(items) => {
                let list = copy_strings(items);
                payload.push(
                    WireMember { name: "assignees".to_string(), value: WireValue::List(list) },
                );
                assert(members(payload@) == so_far.push(
                    ("assignees"@, WireValueView::List(strings(items@))),
                ));
            },
            None => {},
        }
        payload
    }
}

/// A copy of a vector of strings.
pub fn copy_strings(items: &Vec<String>) -> (copy: Vec<String>)
    ensures
        strings(copy@) == strings(items@),
{
    let mut copy: Vec<String> = Vec::new();
    let mut i: usize = 0;
    while i < items.len()
        invariant
            i <= items.len(),
            strings(copy@) == strings(items@).take(i as int),
        decreases items.len() - i,
    {
        copy.push(items[i].clone());
        assert(strings(copy@) == strings(items@).take(i as int).push(items@[i as int]@));
        i += 1;
    }
    assert(strings(items@).take(items@.len() as int) == strings(items@));
    copy
}

/// The text that the audit tool printed, put together again from its
/// lines: the lines with a line feed between each two.
pub open spec fn report_of(stdout_buf: Seq<String>) -> Seq<char> {
    join(strings(stdout_buf), seq!['\n'])
}

/// Puts the text that the audit tool printed together again from its lines.
pub fn report_text(stdout_buf: &Vec<String>) -> (text: String)
    ensures
        text@ == report_of(stdout_buf@),
{
    let ghost lines = strings(stdout_buf@);
    let mut text = String::new();
    let mut i: usize = 0;
    assert(lines.take(0) == Seq::<Seq<char>>::empty());
    while i < stdout_buf.len()
        invariant
            i <= stdout_buf.len(),
            lines == strings(stdout_buf@),
            text@ == join(lines.take(i as int), seq!['\n']),
        decreases stdout_buf.len() - i,
    {
        if i > 0 {
            proof {
                reveal_strlit("\n");
            }
            assert("\n"@ == seq!['\n']);
            text.append("\n");
        }
        text.append(stdout_buf[i].as_str());
        proof {
            let now = lines.take(i + 1);
            assert(now.drop_last() == lines.take(i as int));
            assert(now.last() == stdout_buf@[i as int]@);
            if i == 0 {
                assert(now[0] == now.last());
            }
        }
        i += 1;
    }
    assert(lines.take(lines.len() as int) == lines);
    text
}

/// The issue that reports the advisories of `rustsec_map`: the title and
/// the body composed from the set, and nothing else set.
pub fn issue_of(rustsec_map: &AdvisoryReportSet) -> (issue: Issue)
    requires
        rustsec_map.wf(),
    ensures
        issue.title@ == title_of(rustsec_map.ids()),
        issue.body matches Some(body) && body@ == body_of(rustsec_map.records()),
        issue.milestone is None,
        issue.labels is None,
        issue.assignees is None,
{
    Issue {
        title: generate_title(rustsec_map),
        body: Some(generate_body(rustsec_map)),
        milestone: None,
        labels: None,
        assignees: None,
    }
}

/// The issue that reports what the audit tool printed, given the lines of
/// its standard output in order.
pub fn compose_issue(stdout_buf: &Vec<String>) -> (issue: Issue)
    ensures
        issue.title@ == title_of(ids_of(report_reading(report_of(stdout_buf@)))),
        issue.body matches Some(body) && body@ == body_of(
            report_reading(report_of(stdout_buf@)),
        ),
        issue.milestone is None,
        issue.labels is None,
        issue.assignees is None,
{
    let text = report_text(stdout_buf);
    let set = parse(text.as_str());
    issue_of(&set)
}

} // verus!
