//! Discord interactions for ACP permission requests.

use vstd::prelude::*;

use crate::ids::UserId;
use crate::numbers;
use crate::text;

verus! {

/// Maximum number of permission options Discord accepts in one message.
pub const MAX_OPTIONS: usize = 25;

/// Maximum number of buttons Discord permits in one action row.
pub const BUTTONS_PER_ROW: usize = 5;

/// Maximum number of action rows Discord permits in one message.
pub const MAX_ACTION_ROWS: usize = 5;

/// Maximum number of characters Discord permits in a button label.
pub const LABEL_LIMIT: usize = 80;

/// What choosing a permission option means.
#[derive(Clone, Copy, Debug, PartialEq, Eq, Structural)]
pub enum PermissionOptionKind {
    /// Allow this operation.
    AllowOnce,
    /// Allow this and later operations.
    AllowAlways,
    /// Reject this operation.
    RejectOnce,
    /// Reject this and later operations.
    RejectAlways,
}

/// One choice of a permission request.
#[derive(Clone, Debug)]
pub struct PermissionOption {
    /// Identifies the option to the agent.
    pub option_id: String,
    /// Human-readable label.
    pub name: String,
    /// What choosing the option means.
    pub kind: PermissionOptionKind,
}

/// A request of the agent to let the user decide on an operation.
#[derive(Clone, Debug)]
pub struct RequestPermissionRequest {
    /// ACP session that asks.
    pub session_id: String,
    /// Title of the tool call that needs permission.
    pub title: Option<String>,
    /// Choices to offer.
    pub options: Vec<PermissionOption>,
}

/// The decision on a permission request.
#[derive(Clone, Debug, PartialEq, Eq)]
pub enum RequestPermissionOutcome {
    /// Nothing was decided.
    Cancelled,
    /// An option was chosen.
    Selected {
        /// Identifies the chosen option.
        option_id: String,
    },
}

/// The answer to a permission request.
#[derive(Clone, Debug, PartialEq, Eq)]
pub struct RequestPermissionResponse {
    /// The decision.
    pub outcome: RequestPermissionOutcome,
}

impl View for RequestPermissionResponse {
    type V = Option<Seq<char>>;

    /// The chosen option, `None` where the request was cancelled.
    open spec fn view(&self) -> Option<Seq<char>> {
        match self.outcome {
            RequestPermissionOutcome::Cancelled => None,
            RequestPermissionOutcome::Selected { option_id } => Some(option_id@),
        }
    }
}

/// Returns a cancelled permission response.
pub fn cancelled() -> (response: RequestPermissionResponse)
    ensures
        response@ is None,
{
    RequestPermissionResponse { outcome: RequestPermissionOutcome::Cancelled }
}

/// Builds a selected permission response for one option ID.
pub fn selected(option_id: &str) -> (response: RequestPermissionResponse)
    ensures
        response@ == Some(option_id@),
{
    RequestPermissionResponse {
        outcome: RequestPermissionOutcome::Selected { option_id: text::copy(option_id) },
    }
}

/// Options that authorize the requested operation.
pub open spec fn allows(kind: PermissionOptionKind) -> bool {
    kind == PermissionOptionKind::AllowOnce || kind == PermissionOptionKind::AllowAlways
}

/// Identifies options that authorize the requested operation.
pub fn is_allow(kind: PermissionOptionKind) -> (result: bool)
    ensures
        result == allows(kind),
{
    kind == PermissionOptionKind::AllowOnce || kind == PermissionOptionKind::AllowAlways
}

/// The first option of a kind, or the number of options.
pub open spec fn first_of_kind(options: Seq<PermissionOption>, kind: PermissionOptionKind) -> int
    decreases options.len(),
{
    if options.len() == 0 || options[0].kind == kind {
        0
    } else {
        1 + first_of_kind(options.drop_first(), kind)
    }
}

/// The option that an automatic approval chooses: the first lasting approval,
/// else the first single one.
pub open spec fn approval(options: Seq<PermissionOption>) -> Option<Seq<char>> {
    let always = first_of_kind(options, PermissionOptionKind::AllowAlways);
    let once = first_of_kind(options, PermissionOptionKind::AllowOnce);
    if always < options.len() {
        Some(options[always].option_id@)
    } else if once < options.len() {
        Some(options[once].option_id@)
    } else {
        None
    }
}

/// What `first_of_kind` finds is the first option of the kind.
pub proof fn lemma_first_of_kind(options: Seq<PermissionOption>, kind: PermissionOptionKind)
    ensures
        0 <= first_of_kind(options, kind) <= options.len(),
        first_of_kind(options, kind) < options.len() ==> options[first_of_kind(
            options,
            kind,
        )].kind == kind,
        forall|i: int|
            0 <= i < first_of_kind(options, kind) ==> (#[trigger] options[i]).kind != kind,
    decreases options.len(),
{
    if options.len() > 0 && options[0].kind != kind {
        let rest = options.drop_first();
        lemma_first_of_kind(rest, kind);
        assert forall|i: int| 0 <= i < first_of_kind(options, kind) implies (
        #[trigger] options[i]).kind != kind by {
            if i > 0 {
                assert(options[i] == rest[i - 1]);
            }
        }
    }
}

fn find_kind(options: &Vec<PermissionOption>, kind: PermissionOptionKind) -> (at: usize)
    ensures
        at == first_of_kind(options@, kind),
        at <= options@.len(),
{
    let mut at: usize = 0;
    while at < options.len() && options[at].kind != kind
        invariant
            at <= options@.len(),
            forall|i: int| 0 <= i < at ==> (#[trigger] options@[i]).kind != kind,
        decreases options@.len() - at,
    {
        at += 1;
    }
    proof {
        lemma_first_of_kind(options@, kind);
        let found = first_of_kind(options@, kind);
        if found < at {
            assert(options@[found].kind != kind);
        }
        if at < found {
            assert(options@[at as int].kind != kind);
        }
    }
    at
}

/// Chooses a persistent approval when available for `approve_all` mode.
pub fn approve_all(request: &RequestPermissionRequest) -> (response: RequestPermissionResponse)
    ensures
        response@ == approval(request.options@),
{
    let always = find_kind(&request.options, PermissionOptionKind::AllowAlways);
    if always < request.options.len() {
        return selected(request.options[always].option_id.as_str());
    }
    let once = find_kind(&request.options, PermissionOptionKind::AllowOnce);
    if once < request.options.len() {
        return selected(request.options[once].option_id.as_str());
    }
    cancelled()
}

/// An automatic approval chooses an offered option that authorizes the
/// operation, and cancels exactly when none is offered.
pub proof fn an_approval_is_an_offered_authorization(options: Seq<PermissionOption>)
    ensures
        approval(options) matches Some(chosen) ==> exists|i: int|
            0 <= i < options.len() && (#[trigger] options[i]).option_id@ == chosen && allows(
                options[i].kind,
            ),
        approval(options) is None <==> forall|i: int|
            0 <= i < options.len() ==> !allows((#[trigger] options[i]).kind),
{
    lemma_first_of_kind(options, PermissionOptionKind::AllowAlways);
    lemma_first_of_kind(options, PermissionOptionKind::AllowOnce);
    let always = first_of_kind(options, PermissionOptionKind::AllowAlways);
    let once = first_of_kind(options, PermissionOptionKind::AllowOnce);
    if always < options.len() {
        assert(allows(options[always].kind));
    } else if once < options.len() {
        assert(allows(options[once].kind));
    }
}

/// Color of a permission button.
#[derive(Clone, Copy, Debug, PartialEq, Eq, Structural)]
pub enum ButtonStyle {
    /// Green.
    Success,
    /// Red.
    Danger,
}

/// One button of a permission message.
#[derive(Clone, Debug, PartialEq, Eq)]
pub struct PermissionButton {
    /// Identifier that Discord hands back when the button is pressed.
    pub custom_id: String,
    /// Visible label.
    pub label: String,
    /// Color.
    pub style: ButtonStyle,
}

/// The content of a button.
pub ghost struct ButtonView {
    pub custom_id: Seq<char>,
    pub label: Seq<char>,
    pub style: ButtonStyle,
}

impl View for PermissionButton {
    type V = ButtonView;

    open spec fn view(&self) -> ButtonView {
        ButtonView { custom_id: self.custom_id@, label: self.label@, style: self.style }
    }
}

/// The contents of a row of buttons.
pub open spec fn button_views(buttons: Seq<PermissionButton>) -> Seq<ButtonView> {
    buttons.map_values(|button: PermissionButton| button@)
}

/// The contents of rows of buttons.
pub open spec fn row_views(rows: Seq<Vec<PermissionButton>>) -> Seq<Seq<ButtonView>> {
    rows.map_values(|row: Vec<PermissionButton>| button_views(row@))
}

/// The color of an option's button.
pub open spec fn style_of(kind: PermissionOptionKind) -> ButtonStyle {
    if allows(kind) {
        ButtonStyle::Success
    } else {
        ButtonStyle::Danger
    }
}

/// Chooses green for allow options and red for all reject options.
pub fn option_style(kind: PermissionOptionKind) -> (style: ButtonStyle)
    ensures
        style == style_of(kind),
{
    if is_allow(kind) {
        ButtonStyle::Success
    } else {
        ButtonStyle::Danger
    }
}

/// The identifier of the button for the option at a position.
pub open spec fn button_id(index: nat) -> Seq<char> {
    "agentcord:permission:"@ + numbers::decimal(index)
}

/// The button for the option at a position.
pub open spec fn button_of(options: Seq<PermissionOption>, index: int) -> ButtonView {
    ButtonView {
        custom_id: button_id(index as nat),
        label: text::ellipsized(text::lowercase(options[index].name@), LABEL_LIMIT as nat),
        style: style_of(options[index].kind),
    }
}

/// The buttons of the first `count` options that do, or do not, authorize the
/// operation.
pub open spec fn buttons_of(options: Seq<PermissionOption>, count: int, allow: bool) -> Seq<
    ButtonView,
>
    decreases count,
{
    if count <= 0 {
        Seq::empty()
    } else {
        let before = buttons_of(options, count - 1, allow);
        if allows(options[count - 1].kind) == allow {
            before.push(button_of(options, count - 1))
        } else {
            before
        }
    }
}

/// Buttons in rows that are full but for the last.
pub open spec fn rows_of(buttons: Seq<ButtonView>) -> Seq<Seq<ButtonView>>
    decreases buttons.len(),
{
    if buttons.len() == 0 {
        Seq::empty()
    } else if buttons.len() <= BUTTONS_PER_ROW {
        seq![buttons]
    } else {
        seq![buttons.take(BUTTONS_PER_ROW as int)] + rows_of(buttons.skip(BUTTONS_PER_ROW as int))
    }
}

/// The rows of a permission message: authorizing buttons first.
pub open spec fn components_of(options: Seq<PermissionOption>) -> Seq<Seq<ButtonView>> {
    rows_of(buttons_of(options, options.len() as int, true)) + rows_of(
        buttons_of(options, options.len() as int, false),
    )
}

fn copy_button(button: &PermissionButton) -> (copied: PermissionButton)
    ensures
        copied@ == button@,
{
    PermissionButton {
        custom_id: text::copy(button.custom_id.as_str()),
        label: text::copy(button.label.as_str()),
        style: button.style,
    }
}

proof fn lemma_rows_step(buttons: Seq<ButtonView>, from: int)
    requires
        0 <= from < buttons.len(),
    ensures
        rows_of(buttons.skip(from)) == seq![
            buttons.subrange(
                from,
                if from + BUTTONS_PER_ROW <= buttons.len() {
                    from + BUTTONS_PER_ROW
                } else {
                    buttons.len() as int
                },
            ),
        ] + (if from + BUTTONS_PER_ROW <= buttons.len() {
            rows_of(buttons.skip(from + BUTTONS_PER_ROW))
        } else {
            Seq::empty()
        }),
{
    let rest = buttons.skip(from);
    if rest.len() > BUTTONS_PER_ROW {
        assert(rest.take(BUTTONS_PER_ROW as int) =~= buttons.subrange(
            from,
            from + BUTTONS_PER_ROW,
        ));
        assert(rest.skip(BUTTONS_PER_ROW as int) =~= buttons.skip(from + BUTTONS_PER_ROW));
    } else {
        assert(rest =~= buttons.subrange(from, buttons.len() as int));
        if rest.len() == BUTTONS_PER_ROW {
            assert(buttons.skip(from + BUTTONS_PER_ROW) =~= Seq::<ButtonView>::empty());
        }
        assert(seq![rest] + Seq::<Seq<ButtonView>>::empty() =~= seq![rest]);
    }
}

/// Appends action rows of at most five buttons to a component list.
pub fn append_rows(components: &mut Vec<Vec<PermissionButton>>, buttons: &Vec<PermissionButton>)
    ensures
        row_views(final(components)@) == row_views(old(components)@) + rows_of(
            button_views(buttons@),
        ),
{
    let ghost views = button_views(buttons@);
    let ghost start = row_views(components@);
    let mut from: usize = 0;
    assert(views.skip(0) =~= views);
    while from < buttons.len()
        invariant
            from <= buttons@.len(),
            views == button_views(buttons@),
            row_views(components@) + rows_of(views.skip(from as int)) == start + rows_of(views),
        decreases buttons@.len() - from,
    {
        let to: usize = if buttons.len() - from >= BUTTONS_PER_ROW {
            from + BUTTONS_PER_ROW
        } else {
            buttons.len()
        };
        let ghost before = row_views(components@);
        let mut row: Vec<PermissionButton> = Vec::new();
        let mut i: usize = from;
        while i < to
            invariant
                from <= i <= to <= buttons@.len(),
                views == button_views(buttons@),
                button_views(row@) == views.subrange(from as int, i as int),
            decreases to - i,
        {
            let ghost done = button_views(row@);
            row.push(copy_button(&buttons[i]));
            proof {
                assert(button_views(row@) =~= done.push(views[i as int]));
                assert(views.subrange(from as int, i + 1) =~= views.subrange(
                    from as int,
                    i as int,
                ).push(views[i as int]));
            }
            i += 1;
        }
        let ghost shown = button_views(row@);
        components.push(row);
        proof {
            lemma_rows_step(views, from as int);
            assert(row_views(components@) =~= before.push(shown));
            let tail = if to - from == BUTTONS_PER_ROW {
                rows_of(views.skip(to as int))
            } else {
                Seq::empty()
            };
            assert(before + (seq![shown] + tail) =~= before.push(shown) + tail);
            if to - from < BUTTONS_PER_ROW {
                assert(views.skip(to as int) =~= Seq::<ButtonView>::empty());
            }
        }
        from = to;
    }
    assert(views.skip(from as int) =~= Seq::<ButtonView>::empty());
    assert(row_views(components@) + Seq::<Seq<ButtonView>>::empty() =~= row_views(components@));
}

/// Builds separate green and red button rows while respecting Discord limits.
pub fn permission_components(request: &RequestPermissionRequest) -> (components: Vec<
    Vec<PermissionButton>,
>)
    ensures
        row_views(components@) == components_of(request.options@),
{
    let ghost options = request.options@;
    let mut allow_buttons: Vec<PermissionButton> = Vec::new();
    let mut deny_buttons: Vec<PermissionButton> = Vec::new();
    let mut index: usize = 0;
    assert(button_views(allow_buttons@) =~= Seq::<ButtonView>::empty());
    assert(button_views(deny_buttons@) =~= Seq::<ButtonView>::empty());
    while index < request.options.len()
        invariant
            index <= options.len(),
            options == request.options@,
            button_views(allow_buttons@) == buttons_of(options, index as int, true),
            button_views(deny_buttons@) == buttons_of(options, index as int, false),
        decreases options.len() - index,
    {
        let option = &request.options[index];
        let label = text::to_lowercase(option.name.as_str());
        let button = PermissionButton {
            custom_id: text::join2(
                "agentcord:permission:",
                numbers::format_usize(index).as_str(),
            ),
            label: truncate(label.as_str(), LABEL_LIMIT),
            style: option_style(option.kind),
        };
        let ghost shown = button@;
        let ghost allowed = button_views(allow_buttons@);
        let ghost denied = button_views(deny_buttons@);
        assert(shown == button_of(options, index as int));
        if is_allow(option.kind) {
            allow_buttons.push(button);
            assert(button_views(allow_buttons@) =~= allowed.push(shown));
        } else {
            deny_buttons.push(button);
            assert(button_views(deny_buttons@) =~= denied.push(shown));
        }
        index += 1;
    }
    let mut components: Vec<Vec<PermissionButton>> = Vec::new();
    assert(row_views(components@) =~= Seq::<Seq<ButtonView>>::empty());
    append_rows(&mut components, &allow_buttons);
    append_rows(&mut components, &deny_buttons);
    assert(Seq::<Seq<ButtonView>>::empty() + rows_of(button_views(allow_buttons@)) + rows_of(
        button_views(deny_buttons@),
    ) =~= components_of(options));
    components
}

/// No row holds more buttons than Discord permits, and none is empty.
pub proof fn rows_fit_discord(buttons: Seq<ButtonView>)
    ensures
        forall|i: int|
            0 <= i < rows_of(buttons).len() ==> 0 < (#[trigger] rows_of(buttons)[i]).len()
                <= BUTTONS_PER_ROW,
    decreases buttons.len(),
{
    if buttons.len() > BUTTONS_PER_ROW {
        let rest = buttons.skip(BUTTONS_PER_ROW as int);
        rows_fit_discord(rest);
        assert forall|i: int| 0 <= i < rows_of(buttons).len() implies 0 < (#[trigger] rows_of(
            buttons,
        )[i]).len() <= BUTTONS_PER_ROW by {
            if i > 0 {
                assert(rows_of(buttons)[i] == rows_of(rest)[i - 1]);
            }
        }
    }
}

/// Truncates a Discord button label without splitting Unicode characters.
pub fn truncate(value: &str, limit: usize) -> (result: String)
    ensures
        result@ == text::ellipsized(value@, limit as nat),
{
    text::truncate_end(value, limit)
}

/// The first step of asking for a permission.
pub enum Ask {
    /// The request cannot be shown: report this text and cancel.
    Refuse(String),
    /// Send this message and wait for an answer.
    Present {
        /// Content of the message.
        content: String,
        /// Rows of buttons below it.
        components: Vec<Vec<PermissionButton>>,
    },
}

/// The content of the first step of asking.
pub ghost enum AskView {
    Refuse(Seq<char>),
    Present(Seq<char>, Seq<Seq<ButtonView>>),
}

impl View for Ask {
    type V = AskView;

    open spec fn view(&self) -> AskView {
        match self {
            Ask::Refuse(report) => AskView::Refuse(report@),
            Ask::Present { content, components } => AskView::Present(
                content@,
                row_views(components@),
            ),
        }
    }
}

/// The text shown above the buttons of a request.
pub open spec fn prompt_text(title: Option<Seq<char>>) -> Seq<char> {
    let raw = match title {
        Some(value) => value,
        None => "the requested tool call"@,
    };
    "🔐 **permission requested** for **"@ + text::without2(raw, '@', '`') + "**"@
}

/// How asking for a permission starts.
pub open spec fn ask_of(request: RequestPermissionRequest) -> AskView {
    let options = request.options@;
    if options.len() == 0 || options.len() > MAX_OPTIONS {
        AskView::Refuse(
            "permission request cancelled: acp supplied "@ + numbers::decimal(options.len())
                + " choices, but discord supports 1–25"@,
        )
    } else if components_of(options).len() > MAX_ACTION_ROWS {
        AskView::Refuse(
            "permission request cancelled: discord cannot display all permission choices"@,
        )
    } else {
        AskView::Present(prompt_text(text::opt_text(request.title)), components_of(options))
    }
}

/// Presents one ACP permission request in Discord.
pub fn ask(request: &RequestPermissionRequest) -> (step: Ask)
    ensures
        step@ == ask_of(*request),
{
    let count = request.options.len();
    if count == 0 || count > MAX_OPTIONS {
        return Ask::Refuse(
            text::join3(
                "permission request cancelled: acp supplied ",
                numbers::format_usize(count).as_str(),
                " choices, but discord supports 1–25",
            ),
        );
    }
    let components = permission_components(request);
    assert(row_views(components@).len() == components@.len());
    if components.len() > MAX_ACTION_ROWS {
        return Ask::Refuse(
            text::copy(
                "permission request cancelled: discord cannot display all permission choices",
            ),
        );
    }
    let title = match &request.title {
        Some(title) => text::remove2(title.as_str(), '@', '`'),
        None => text::remove2("the requested tool call", '@', '`'),
    };
    let content = text::join3(
        "🔐 **permission requested** for **",
        title.as_str(),
        "**",
    );
    Ask::Present { content, components }
}

/// What a pressed button leads to.
pub enum Answer {
    /// Tell the user that they may not answer, and go on waiting.
    Unauthorized,
    /// Go on waiting.
    Ignored,
    /// Replace the message by this text and answer the agent.
    Answered {
        /// New content of the message.
        acknowledgement: String,
        /// Answer to the agent.
        response: RequestPermissionResponse,
    },
}

/// The content of what a pressed button leads to.
pub ghost enum AnswerView {
    Unauthorized,
    Ignored,
    Answered(Seq<char>, Option<Seq<char>>),
}

impl View for Answer {
    type V = AnswerView;

    open spec fn view(&self) -> AnswerView {
        match self {
            Answer::Unauthorized => AnswerView::Unauthorized,
            Answer::Ignored => AnswerView::Ignored,
            Answer::Answered { acknowledgement, response } => AnswerView::Answered(
                acknowledgement@,
                response@,
            ),
        }
    }
}

/// The option that a button identifier names.
pub open spec fn named_option(custom_id: Seq<char>, options: Seq<PermissionOption>) -> Option<
    PermissionOption,
> {
    let prefix = "agentcord:permission:"@;
    if text::starts_with(custom_id, prefix) {
        match numbers::unsigned_in(custom_id.skip(prefix.len() as int), usize::MAX as nat) {
            Some(index) => if index < options.len() {
                Some(options[index as int])
            } else {
                None
            },
            None => None,
        }
    } else {
        None
    }
}

/// What pressing a button leads to.
pub open spec fn answer_of(
    options: Seq<PermissionOption>,
    user: UserId,
    allowed_user: UserId,
    custom_id: Seq<char>,
) -> AnswerView {
    if user != allowed_user {
        AnswerView::Unauthorized
    } else {
        match named_option(custom_id, options) {
            Some(option) => AnswerView::Answered(
                "permission response: **"@ + option.name@ + "**"@,
                Some(option.option_id@),
            ),
            None => AnswerView::Ignored,
        }
    }
}

/// Decides on one pressed button.
pub fn answer(
    request: &RequestPermissionRequest,
    user: UserId,
    allowed_user: UserId,
    custom_id: &str,
) -> (result: Answer)
    ensures
        result@ == answer_of(request.options@, user, allowed_user, custom_id@),
{
    if user != allowed_user {
        return Answer::Unauthorized;
    }
    let suffix = match text::strip_start(custom_id, "agentcord:permission:") {
        Some(suffix) => suffix,
        None => {
            return Answer::Ignored;
        },
    };
    match numbers::parse_u64_upto(suffix.as_str(), usize::MAX as u64) {
        Some(number) => {
            let index: usize = number as usize;
            if index < request.options.len() {
                let option = &request.options[index];
                Answer::Answered {
                    acknowledgement: text::join3(
                        "permission response: **",
                        option.name.as_str(),
                        "**",
                    ),
                    response: selected(option.option_id.as_str()),
                }
            } else {
                Answer::Ignored
            }
        },
        None => Answer::Ignored,
    }
}

/// The text shown to a user who may not answer a request.
pub fn unauthorized_notice() -> (notice: &'static str)
    ensures
        notice@ == "you are not allowed to answer this request"@,
{
    "you are not allowed to answer this request"
}

/// The answer to a request that nobody answered in time, and the new content of
/// its message.
pub fn timed_out() -> (result: (&'static str, RequestPermissionResponse))
    ensures
        result.0@ == "permission request timed out and was denied"@,
        result.1@ is None,
{
    ("permission request timed out and was denied", cancelled())
}

/// Pressing the button of an option answers with that option.
pub proof fn each_button_answers_with_its_option(
    options: Seq<PermissionOption>,
    index: int,
    user: UserId,
)
    requires
        0 <= index < options.len() <= usize::MAX,
    ensures
        answer_of(options, user, user, button_of(options, index).custom_id)
            == AnswerView::Answered(
            "permission response: **"@ + options[index].name@ + "**"@,
            Some(options[index].option_id@),
        ),
{
    let prefix = "agentcord:permission:"@;
    let digits = numbers::decimal(index as nat);
    let custom_id = prefix + digits;
    assert(custom_id.subrange(0, prefix.len() as int) =~= prefix);
    assert(custom_id.skip(prefix.len() as int) =~= digits);
    numbers::decimal_reads_back(index as nat, usize::MAX as nat);
}

/// Only the allowed user can answer, and only with an option of the request.
pub proof fn only_the_allowed_user_answers(
    options: Seq<PermissionOption>,
    user: UserId,
    allowed_user: UserId,
    custom_id: Seq<char>,
)
    ensures
        answer_of(options, user, allowed_user, custom_id) matches AnswerView::Answered(
            shown,
            chosen,
        ) ==> user == allowed_user && exists|i: int|
            0 <= i < options.len() && chosen == Some((#[trigger] options[i]).option_id@),
{
}

} // verus!
