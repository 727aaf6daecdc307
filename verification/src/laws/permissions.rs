//! Laws of permission requests.

use vstd::prelude::*;

use crate::discord::permission;
use crate::discord::permission::{
    AnswerView, AskView, ButtonStyle, ButtonView, PermissionOption, PermissionOptionKind,
    RequestPermissionRequest,
};
use crate::ids::UserId;
use crate::numbers;
use crate::seqs;
use crate::text;

verus! {

/// Lists of lists flatten one after the other.
pub proof fn lemma_flattened_add<T>(left: Seq<Seq<T>>, right: Seq<Seq<T>>)
    ensures
        seqs::flattened(left + right) == seqs::flattened(left) + seqs::flattened(right),
    decreases right.len(),
{
    if right.len() == 0 {
        assert(left + right =~= left);
        assert(seqs::flattened(left) + seqs::flattened(right) =~= seqs::flattened(left));
    } else {
        lemma_flattened_add(left, right.drop_last());
        assert((left + right).drop_last() =~= left + right.drop_last());
        assert(seqs::flattened(left) + seqs::flattened(right.drop_last()) + right.last()
            =~= seqs::flattened(left) + (seqs::flattened(right.drop_last()) + right.last()));
    }
}

/// Flattening one list gives that list.
pub proof fn lemma_flattened_one<T>(list: Seq<T>)
    ensures
        seqs::flattened(seq![list]) == list,
{
    let none = Seq::<Seq<T>>::empty();
    assert(seqs::flattened(none) =~= Seq::<T>::empty());
    assert(seq![list].drop_last() =~= none);
    assert(seqs::flattened(seq![list]) =~= Seq::<T>::empty() + list);
}

/// An item of the flattened lists stands in one of them.
pub proof fn lemma_flattened_holds<T>(lists: Seq<Seq<T>>, item: T)
    ensures
        seqs::flattened(lists).contains(item) <==> exists|r: int, c: int|
            0 <= r < lists.len() && 0 <= c < lists[r].len() && #[trigger] lists[r][c] == item,
    decreases lists.len(),
{
    if lists.len() > 0 {
        let before = lists.drop_last();
        lemma_flattened_holds(before, item);
        let all = seqs::flattened(lists);
        let head = seqs::flattened(before);
        if all.contains(item) {
            let k = choose|k: int| 0 <= k < all.len() && all[k] == item;
            if k < head.len() {
                assert(head[k] == item);
                let (r, c) = choose|r: int, c: int|
                    0 <= r < before.len() && 0 <= c < before[r].len() && #[trigger] before[r][c]
                        == item;
                assert(lists[r][c] == item);
            } else {
                assert(lists[lists.len() - 1][k - head.len()] == item);
            }
        }
        if exists|r: int, c: int|
            0 <= r < lists.len() && 0 <= c < lists[r].len() && #[trigger] lists[r][c] == item {
            let (r, c) = choose|r: int, c: int|
                0 <= r < lists.len() && 0 <= c < lists[r].len() && #[trigger] lists[r][c] == item;
            if r < before.len() {
                assert(before[r][c] == item);
                let k = choose|k: int| 0 <= k < head.len() && head[k] == item;
                assert(all[k] == item);
            } else {
                assert(all[head.len() + c] == item);
            }
        }
    }
}

proof fn lemma_rows_hold_the_buttons(buttons: Seq<ButtonView>)
    ensures
        seqs::flattened(permission::rows_of(buttons)) == buttons,
    decreases buttons.len(),
{
    if buttons.len() == 0 {
    } else if buttons.len() <= permission::BUTTONS_PER_ROW {
        lemma_flattened_one(buttons);
    } else {
        let cut = permission::BUTTONS_PER_ROW as int;
        lemma_rows_hold_the_buttons(buttons.skip(cut));
        lemma_flattened_one(buttons.take(cut));
        lemma_flattened_add(seq![buttons.take(cut)], permission::rows_of(buttons.skip(cut)));
        assert(buttons.take(cut) + buttons.skip(cut) =~= buttons);
    }
}

/// Choosing the option authorizes the operation.
pub open spec fn authorizes(option: PermissionOption) -> bool {
    match option.kind {
        PermissionOptionKind::AllowOnce => true,
        PermissionOptionKind::AllowAlways => true,
        PermissionOptionKind::RejectOnce => false,
        PermissionOptionKind::RejectAlways => false,
    }
}

/// The button stands for the option at a position: its identifier names the
/// position, its label the option, and it is green where choosing the option
/// authorizes the operation and red where it does not.
pub open spec fn stands_for(
    button: ButtonView,
    options: Seq<PermissionOption>,
    index: int,
) -> bool {
    &&& button.custom_id == "agentcord:permission:"@ + numbers::decimal(index as nat)
    &&& text::lowercase(options[index].name@).len() <= 80 ==> button.label == text::lowercase(
        options[index].name@,
    )
    &&& text::lowercase(options[index].name@).len() > 80 ==> button.label == text::lowercase(
        options[index].name@,
    ).take(79).push('…')
    &&& (button.style == ButtonStyle::Success) == authorizes(options[index])
    &&& (button.style == ButtonStyle::Danger) == !authorizes(options[index])
}

/// How many of the first options do, or do not, authorize the operation.
pub open spec fn count_of(options: Seq<PermissionOption>, allow: bool) -> nat
    decreases options.len(),
{
    if options.len() == 0 {
        0
    } else {
        count_of(options.drop_last(), allow) + if authorizes(options.last()) == allow {
            1nat
        } else {
            0nat
        }
    }
}

proof fn lemma_buttons(options: Seq<PermissionOption>, count: int, allow: bool)
    requires
        0 <= count <= options.len(),
    ensures
        permission::buttons_of(options, count, allow).len() == count_of(
            options.take(count),
            allow,
        ),
        forall|i: int|
            0 <= i < count && authorizes(#[trigger] options[i]) == allow
                ==> permission::buttons_of(options, count, allow).contains(
                permission::button_of(options, i),
            ),
        forall|k: int|
            0 <= k < permission::buttons_of(options, count, allow).len() ==> exists|i: int|
                0 <= i < count && authorizes(options[i]) == allow
                    && #[trigger] permission::buttons_of(options, count, allow)[k]
                    == #[trigger] permission::button_of(options, i),
    decreases count,
{
    if count > 0 {
        lemma_buttons(options, count - 1, allow);
        let before = permission::buttons_of(options, count - 1, allow);
        let all = permission::buttons_of(options, count, allow);
        assert(options.take(count).drop_last() =~= options.take(count - 1));
        assert(options.take(count).last() == options[count - 1]);
        assert forall|i: int|
            0 <= i < count && authorizes(#[trigger] options[i]) == allow implies all.contains(
            permission::button_of(options, i),
        ) by {
            if i < count - 1 {
                let k = choose|k: int|
                    0 <= k < before.len() && before[k] == permission::button_of(options, i);
                assert(all[k] == permission::button_of(options, i));
            } else {
                assert(all.last() == permission::button_of(options, i));
            }
        }
        assert forall|k: int| 0 <= k < all.len() implies exists|i: int|
            0 <= i < count && authorizes(options[i]) == allow && #[trigger] all[k]
                == #[trigger] permission::button_of(options, i) by {
            if k < before.len() {
                assert(all[k] == before[k]);
            } else {
                assert(authorizes(options[count - 1]) == allow);
                assert(all[k] == permission::button_of(options, count - 1));
            }
        }
    }
}

proof fn lemma_counts(options: Seq<PermissionOption>)
    ensures
        count_of(options, true) + count_of(options, false) == options.len(),
    decreases options.len(),
{
    if options.len() > 0 {
        lemma_counts(options.drop_last());
    }
}

proof fn lemma_rows(options: Seq<PermissionOption>)
    ensures
        seqs::flattened(permission::components_of(options)) == permission::buttons_of(
            options,
            options.len() as int,
            true,
        ) + permission::buttons_of(options, options.len() as int, false),
{
    let allowed = permission::buttons_of(options, options.len() as int, true);
    let denied = permission::buttons_of(options, options.len() as int, false);
    lemma_rows_hold_the_buttons(allowed);
    lemma_rows_hold_the_buttons(denied);
    lemma_flattened_add(permission::rows_of(allowed), permission::rows_of(denied));
}

proof fn lemma_stands_for(options: Seq<PermissionOption>, index: int)
    requires
        0 <= index < options.len(),
    ensures
        stands_for(permission::button_of(options, index), options, index),
{
    lemma_label(options[index].name@);
}

proof fn lemma_option_is_held(options: Seq<PermissionOption>, index: int)
    requires
        0 <= index < options.len(),
    ensures
        exists|r: int, c: int|
            0 <= r < permission::components_of(options).len() && 0 <= c
                < permission::components_of(options)[r].len()
                && #[trigger] permission::components_of(options)[r][c] == permission::button_of(
                options,
                index,
            ),
{
    let allowed = permission::buttons_of(options, options.len() as int, true);
    let denied = permission::buttons_of(options, options.len() as int, false);
    let all = allowed + denied;
    let button = permission::button_of(options, index);
    lemma_rows(options);
    if authorizes(options[index]) {
        lemma_buttons(options, options.len() as int, true);
        let k = choose|k: int| 0 <= k < allowed.len() && allowed[k] == button;
        assert(all[k] == button);
    } else {
        lemma_buttons(options, options.len() as int, false);
        let k = choose|k: int| 0 <= k < denied.len() && denied[k] == button;
        assert(all[allowed.len() + k] == button);
    }
    lemma_flattened_holds(permission::components_of(options), button);
}

proof fn lemma_button_has_option(options: Seq<PermissionOption>, button: ButtonView)
    requires
        seqs::flattened(permission::components_of(options)).contains(button),
    ensures
        exists|index: int|
            0 <= index < options.len() && button == #[trigger] permission::button_of(
                options,
                index,
            ),
{
    let allowed = permission::buttons_of(options, options.len() as int, true);
    let denied = permission::buttons_of(options, options.len() as int, false);
    let all = allowed + denied;
    lemma_rows(options);
    let k = choose|k: int| 0 <= k < all.len() && all[k] == button;
    if k < allowed.len() {
        lemma_buttons(options, options.len() as int, true);
        assert(allowed[k] == button);
    } else {
        lemma_buttons(options, options.len() as int, false);
        assert(denied[k - allowed.len()] == button);
    }
}

/// Some row holds the button that stands for the option at a position.
pub open spec fn shows_option(
    rows: Seq<Seq<ButtonView>>,
    options: Seq<PermissionOption>,
    index: int,
) -> bool {
    exists|r: int, c: int|
        0 <= r < rows.len() && 0 <= c < rows[r].len() && stands_for(
            #[trigger] rows[r][c],
            options,
            index,
        )
}

/// The button stands for some option of the request.
pub open spec fn shown_for(button: ButtonView, options: Seq<PermissionOption>) -> bool {
    exists|index: int| 0 <= index < options.len() && #[trigger] stands_for(button, options, index)
}

/// Every option of a request has exactly one button in the rows: for each position
/// some row holds the button that stands for the option there, the rows hold as
/// many buttons as the request has options, and each of them stands for an option.
pub proof fn every_option_has_one_button(options: Seq<PermissionOption>)
    ensures
        seqs::flattened(permission::components_of(options)).len() == options.len(),
        forall|index: int|
            0 <= index < options.len() ==> #[trigger] shows_option(
                permission::components_of(options),
                options,
                index,
            ),
        forall|r: int, c: int|
            0 <= r < permission::components_of(options).len() && 0 <= c
                < permission::components_of(options)[r].len() ==> shown_for(
                #[trigger] permission::components_of(options)[r][c],
                options,
            ),
{
    let rows = permission::components_of(options);
    lemma_rows(options);
    lemma_counts(options);
    assert(options.take(options.len() as int) =~= options);
    lemma_buttons(options, options.len() as int, true);
    lemma_buttons(options, options.len() as int, false);
    assert forall|index: int| 0 <= index < options.len() implies #[trigger] shows_option(
        rows,
        options,
        index,
    ) by {
        lemma_option_is_held(options, index);
        lemma_stands_for(options, index);
        let (r, c) = choose|r: int, c: int|
            0 <= r < rows.len() && 0 <= c < rows[r].len() && #[trigger] rows[r][c]
                == permission::button_of(options, index);
        assert(stands_for(rows[r][c], options, index));
    }
    assert forall|r: int, c: int| 0 <= r < rows.len() && 0 <= c < rows[r].len() implies shown_for(
        #[trigger] rows[r][c],
        options,
    ) by {
        let button = rows[r][c];
        lemma_flattened_holds(rows, button);
        lemma_button_has_option(options, button);
        let index = choose|index: int|
            0 <= index < options.len() && button == #[trigger] permission::button_of(
                options,
                index,
            );
        lemma_stands_for(options, index);
        assert(stands_for(button, options, index));
    }
}

proof fn lemma_label(name: Seq<char>)
    ensures
        ({
            let lowered = text::lowercase(name);
            let label = text::ellipsized(lowered, permission::LABEL_LIMIT as nat);
            &&& lowered.len() <= 80 ==> label == lowered
            &&& lowered.len() > 80 ==> label == lowered.take(79).push('…')
        }),
{
}

/// No option before a position is of a kind.
pub open spec fn none_before(
    options: Seq<PermissionOption>,
    kind: PermissionOptionKind,
    end: int,
) -> bool {
    forall|j: int| 0 <= j < end ==> (#[trigger] options[j]).kind != kind
}

/// An automatic approval chooses the option at a position: the first that lasts, or
/// the first that holds once where none lasts.
pub open spec fn approves(options: Seq<PermissionOption>, at: int) -> bool {
    &&& 0 <= at < options.len()
    &&& options[at].kind == PermissionOptionKind::AllowAlways || options[at].kind
        == PermissionOptionKind::AllowOnce
    &&& options[at].kind == PermissionOptionKind::AllowAlways ==> none_before(
        options,
        PermissionOptionKind::AllowAlways,
        at,
    )
    &&& options[at].kind == PermissionOptionKind::AllowOnce ==> none_before(
        options,
        PermissionOptionKind::AllowAlways,
        options.len() as int,
    ) && none_before(options, PermissionOptionKind::AllowOnce, at)
}

/// An automatic approval chooses the first option that lasts, and only where there
/// is none the first that holds once; without either nothing is chosen.
pub proof fn an_approval_prefers_to_last(options: Seq<PermissionOption>)
    ensures
        match permission::approval(options) {
            Some(chosen) => exists|at: int| #[trigger]
                approves(options, at) && options[at].option_id@ == chosen,
            None => forall|at: int| !#[trigger] approves(options, at),
        },
{
    permission::lemma_first_of_kind(options, PermissionOptionKind::AllowAlways);
    permission::lemma_first_of_kind(options, PermissionOptionKind::AllowOnce);
    let always = permission::first_of_kind(options, PermissionOptionKind::AllowAlways);
    let once = permission::first_of_kind(options, PermissionOptionKind::AllowOnce);
    if always < options.len() {
        assert(approves(options, always));
    } else if once < options.len() {
        assert(approves(options, once));
    }
}

/// The rows needed for a number of buttons, five to a row.
pub open spec fn rows_for(count: nat) -> nat {
    (count + 4) / 5
}

proof fn lemma_row_count(buttons: Seq<ButtonView>)
    ensures
        permission::rows_of(buttons).len() == rows_for(buttons.len()),
        forall|r: int|
            0 <= r < permission::rows_of(buttons).len() ==> 0 < (#[trigger] permission::rows_of(
                buttons,
            )[r]).len() <= 5,
    decreases buttons.len(),
{
    permission::rows_fit_discord(buttons);
    if buttons.len() > permission::BUTTONS_PER_ROW {
        lemma_row_count(buttons.skip(permission::BUTTONS_PER_ROW as int));
    }
}

/// The rows are as few as can be, each with one to five buttons, the authorizing
/// options before the others.
pub proof fn the_rows_are_as_few_as_can_be(options: Seq<PermissionOption>)
    ensures
        permission::components_of(options).len() == rows_for(count_of(options, true)) + rows_for(
            count_of(options, false),
        ),
        forall|r: int|
            0 <= r < permission::components_of(options).len() ==> 0 < (
            #[trigger] permission::components_of(options)[r]).len() <= 5,
        forall|r: int, c: int|
            0 <= r < permission::components_of(options).len() && 0 <= c
                < permission::components_of(options)[r].len() ==> ((
            #[trigger] permission::components_of(options)[r][c]).style == ButtonStyle::Success <==> r
                < rows_for(count_of(options, true))),
{
    let allowed = permission::buttons_of(options, options.len() as int, true);
    let denied = permission::buttons_of(options, options.len() as int, false);
    let rows = permission::components_of(options);
    lemma_buttons(options, options.len() as int, true);
    lemma_buttons(options, options.len() as int, false);
    assert(options.take(options.len() as int) =~= options);
    lemma_row_count(allowed);
    lemma_row_count(denied);
    let first = permission::rows_of(allowed);
    let second = permission::rows_of(denied);
    assert forall|r: int| 0 <= r < rows.len() implies 0 < (#[trigger] rows[r]).len() <= 5 by {
        if r < first.len() {
            assert(rows[r] == first[r]);
        } else {
            assert(rows[r] == second[r - first.len()]);
        }
    }
    assert forall|r: int, c: int| 0 <= r < rows.len() && 0 <= c < rows[r].len() implies ((
    #[trigger] rows[r][c]).style == ButtonStyle::Success <==> r < first.len()) by {
        let button = rows[r][c];
        if r < first.len() {
            assert(first[r][c] == button);
            lemma_flattened_holds(first, button);
            lemma_rows_hold_the_buttons(allowed);
            let k = choose|k: int| 0 <= k < allowed.len() && allowed[k] == button;
            assert(allowed[k] == button);
        } else {
            assert(second[r - first.len()][c] == button);
            lemma_flattened_holds(second, button);
            lemma_rows_hold_the_buttons(denied);
            let k = choose|k: int| 0 <= k < denied.len() && denied[k] == button;
            assert(denied[k] == button);
        }
    }
}

proof fn lemma_indices(
    options: Seq<PermissionOption>,
    count: int,
    allow: bool,
    k: int,
    l: int,
    i: int,
    j: int,
)
    requires
        0 <= count <= options.len(),
        0 <= k < l < permission::buttons_of(options, count, allow).len(),
        0 <= i,
        0 <= j,
        permission::buttons_of(options, count, allow)[k].custom_id == permission::button_id(
            i as nat,
        ),
        permission::buttons_of(options, count, allow)[l].custom_id == permission::button_id(
            j as nat,
        ),
    ensures
        i < j,
    decreases count,
{
    let all = permission::buttons_of(options, count, allow);
    let before = permission::buttons_of(options, count - 1, allow);
    if l < before.len() {
        lemma_indices(options, count - 1, allow, k, l, i, j);
    } else {
        lemma_buttons(options, count - 1, allow);
        assert(before[k] == all[k]);
        let own = choose|own: int|
            0 <= own < count - 1 && authorizes(options[own]) == allow && before[k]
                == #[trigger] permission::button_of(options, own);
        lemma_same_id(own as nat, i as nat);
        lemma_same_id((count - 1) as nat, j as nat);
    }
}

proof fn lemma_same_id(left: nat, right: nat)
    requires
        permission::button_id(left) == permission::button_id(right),
    ensures
        left == right,
{
    let prefix = "agentcord:permission:"@;
    assert(permission::button_id(left).skip(prefix.len() as int) =~= numbers::decimal(left));
    assert(permission::button_id(right).skip(prefix.len() as int) =~= numbers::decimal(right));
    numbers::decimal_is_injective(left, right);
}

/// The buttons of the options that authorize, and those of the options that do not,
/// stand in the order of the options.
pub proof fn the_buttons_keep_the_order(
    options: Seq<PermissionOption>,
    k: int,
    l: int,
    i: int,
    j: int,
)
    requires
        0 <= k < l < seqs::flattened(permission::components_of(options)).len(),
        0 <= i < options.len(),
        0 <= j < options.len(),
        stands_for(seqs::flattened(permission::components_of(options))[k], options, i),
        stands_for(seqs::flattened(permission::components_of(options))[l], options, j),
    ensures
        authorizes(options[i]) == authorizes(options[j]) ==> i < j,
        authorizes(options[i]) || !authorizes(options[j]),
{
    let allowed = permission::buttons_of(options, options.len() as int, true);
    let denied = permission::buttons_of(options, options.len() as int, false);
    let all = seqs::flattened(permission::components_of(options));
    lemma_rows(options);
    lemma_buttons(options, options.len() as int, true);
    lemma_buttons(options, options.len() as int, false);
    if l < allowed.len() {
        assert(all[k] == allowed[k] && all[l] == allowed[l]);
        lemma_indices(options, options.len() as int, true, k, l, i, j);
    } else if k >= allowed.len() {
        assert(all[k] == denied[k - allowed.len()] && all[l] == denied[l - allowed.len()]);
        lemma_indices(
            options,
            options.len() as int,
            false,
            k - allowed.len(),
            l - allowed.len(),
            i,
            j,
        );
    } else {
        assert(all[k] == allowed[k] && all[l] == denied[l - allowed.len()]);
        assert(allowed[k].style == ButtonStyle::Success);
        assert(denied[l - allowed.len()].style == ButtonStyle::Danger);
    }
}

/// A request is shown exactly where it has one to twenty-five options whose buttons
/// fit in five rows; it is then shown with all its buttons.
pub proof fn a_request_is_shown_where_it_fits(request: RequestPermissionRequest)
    ensures
        permission::ask_of(request) is Present <==> {
            &&& 1 <= request.options@.len() <= 25
            &&& rows_for(count_of(request.options@, true)) + rows_for(
                count_of(request.options@, false),
            ) <= 5
        },
        permission::ask_of(request) matches AskView::Present(_, rows) ==> rows
            == permission::components_of(request.options@),
{
    the_rows_are_as_few_as_can_be(request.options@);
}

/// A user who may not answer changes nothing, and a user who may is answered where the
/// identifier names the position of an option, and ignored otherwise.
pub proof fn an_answer_names_a_position(
    options: Seq<PermissionOption>,
    user: UserId,
    allowed_user: UserId,
    custom_id: Seq<char>,
)
    ensures
        permission::answer_of(options, user, allowed_user, custom_id) is Unauthorized <==> user
            != allowed_user,
        !text::starts_with(custom_id, "agentcord:permission:"@) ==> !(permission::answer_of(
            options,
            user,
            allowed_user,
            custom_id,
        ) is Answered),
        permission::answer_of(options, user, allowed_user, custom_id) matches AnswerView::Answered(
            shown,
            chosen,
        ) ==> exists|i: int|
            0 <= i < options.len() && chosen == Some((#[trigger] options[i]).option_id@)
                && text::contains(shown, options[i].name@) && numbers::unsigned_in(
                custom_id.skip("agentcord:permission:"@.len() as int),
                usize::MAX as nat,
            ) == Some(i as nat),
{
    if let AnswerView::Answered(shown, chosen) = permission::answer_of(
        options,
        user,
        allowed_user,
        custom_id,
    ) {
        let i = numbers::unsigned_in(
            custom_id.skip("agentcord:permission:"@.len() as int),
            usize::MAX as nat,
        )->0 as int;
        crate::laws::tools::lemma_contains("permission response: **"@, options[i].name@, "**"@);
        assert(chosen == Some(options[i].option_id@));
    }
}

/// How many items the first lists hold together.
pub open spec fn offset<T>(lists: Seq<Seq<T>>, count: int) -> nat
    decreases count,
{
    if count <= 0 {
        0
    } else {
        offset(lists, count - 1) + lists[count - 1].len()
    }
}

/// Flattened lists hold each item behind all items of the lists before its own.
pub proof fn lemma_flattened_at<T>(lists: Seq<Seq<T>>, r: int, c: int)
    requires
        0 <= r < lists.len(),
        0 <= c < lists[r].len(),
    ensures
        offset(lists, r) + c < seqs::flattened(lists).len(),
        seqs::flattened(lists)[offset(lists, r) + c] == lists[r][c],
        seqs::flattened(lists).len() == offset(lists, lists.len() as int),
    decreases lists.len(),
{
    let head = lists.drop_last();
    let before = seqs::flattened(head);
    lemma_flattened_len(lists);
    lemma_flattened_len(head);
    lemma_offset(lists, head, r);
    lemma_offset(lists, head, head.len() as int);
    if r < head.len() {
        lemma_flattened_at(head, r, c);
        assert(head[r] == lists[r]);
    }
}

proof fn lemma_flattened_len<T>(lists: Seq<Seq<T>>)
    ensures
        seqs::flattened(lists).len() == offset(lists, lists.len() as int),
    decreases lists.len(),
{
    if lists.len() > 0 {
        lemma_flattened_len(lists.drop_last());
        lemma_offset(lists, lists.drop_last(), lists.len() - 1);
    }
}

proof fn lemma_offset<T>(lists: Seq<Seq<T>>, head: Seq<Seq<T>>, count: int)
    requires
        0 <= count <= head.len() <= lists.len(),
        forall|i: int| 0 <= i < head.len() ==> lists[i] == #[trigger] head[i],
    ensures
        offset(lists, count) == offset(head, count),
    decreases count,
{
    if count > 0 {
        lemma_offset(lists, head, count - 1);
        assert(lists[count - 1] == head[count - 1]);
    }
}

} // verus!
