//! Pure interface state: which tab is selected, how an add-on's update
//! progress is labelled, and the to-do entries a list widget shows. Rendering
//! itself lives outside the library; these types only carry the state.

use vstd::prelude::*;
use vstd::string::StringExecFns;

verus! {

/// The tabs the interface offers, in order.
#[derive(Clone, Copy, Debug, PartialEq, Eq, Structural)]
pub enum SelectedTab {
    Tab1,
    Tab2,
    Tab3,
    Tab4,
}

/// The tab before `t`, or `t` itself when it is the first.
pub open spec fn spec_previous_tab(t: SelectedTab) -> SelectedTab {
    match t {
        SelectedTab::Tab1 => SelectedTab::Tab1,
        SelectedTab::Tab2 => SelectedTab::Tab1,
        SelectedTab::Tab3 => SelectedTab::Tab2,
        SelectedTab::Tab4 => SelectedTab::Tab3,
    }
}

/// The tab after `t`, or `t` itself when it is the last.
pub open spec fn spec_next_tab(t: SelectedTab) -> SelectedTab {
    match t {
        SelectedTab::Tab1 => SelectedTab::Tab2,
        SelectedTab::Tab2 => SelectedTab::Tab3,
        SelectedTab::Tab3 => SelectedTab::Tab4,
        SelectedTab::Tab4 => SelectedTab::Tab4,
    }
}

impl SelectedTab {
    /// The previous tab; the first tab stays where it is.
    pub fn previous(self) -> (r: Self)
        ensures
            r == spec_previous_tab(self),
    {
        match self {
            SelectedTab::Tab1 => SelectedTab::Tab1,
            SelectedTab::Tab2 => SelectedTab::Tab1,
            SelectedTab::Tab3 => SelectedTab::Tab2,
            SelectedTab::Tab4 => SelectedTab::Tab3,
        }
    }

    /// The next tab; the last tab stays where it is.
    pub fn next(self) -> (r: Self)
        ensures
            r == spec_next_tab(self),
    {
        match self {
            SelectedTab::Tab1 => SelectedTab::Tab2,
            SelectedTab::Tab2 => SelectedTab::Tab3,
            SelectedTab::Tab3 => SelectedTab::Tab4,
            SelectedTab::Tab4 => SelectedTab::Tab4,
        }
    }
}

/// Where one add-on stands while a batch update runs.
#[derive(Clone, Copy, Debug, PartialEq, Eq, Structural)]
pub enum AppUpdatingStatusStatus {
    Pending,
    OnGoing,
    Updated,
    Failed,
}

/// The label of an update status.
pub open spec fn spec_status_label(s: AppUpdatingStatusStatus) -> Seq<char> {
    match s {
        AppUpdatingStatusStatus::Pending => "Pending"@,
        AppUpdatingStatusStatus::OnGoing => "On Going"@,
        AppUpdatingStatusStatus::Updated => "Updated"@,
        AppUpdatingStatusStatus::Failed => "Failed"@,
    }
}

/// The line shown for an add-on while a batch update runs: its key and its
/// status label.
pub open spec fn spec_status_line(name: Seq<char>, s: AppUpdatingStatusStatus) -> Seq<char> {
    name + " ("@ + spec_status_label(s) + ")"@
}

/// One add-on's progress entry in the update popup.
#[derive(Debug)]
pub struct AppUpdatingStatus {
    pub app_name: String,
    pub status: AppUpdatingStatusStatus,
}

impl AppUpdatingStatus {
    /// The add-on's key followed by its status label in parentheses.
    pub fn get_status_string(&self) -> (r: String)
        ensures
            r@ == spec_status_line(self.app_name@, self.status),
    {
        let mut r = self.app_name.clone();
        r.append(" (");
        match self.status {
            AppUpdatingStatusStatus::Pending => r.append("Pending"),
            AppUpdatingStatusStatus::OnGoing => r.append("On Going"),
            AppUpdatingStatusStatus::Updated => r.append("Updated"),
            AppUpdatingStatusStatus::Failed => r.append("Failed"),
        }
        r.append(")");
        r
    }
}

/// One add-on's progress entry, carrying the whole descriptor.
#[derive(Debug)]
pub struct ModUpdatingStatus {
    pub app: crate::apps::AppStruct,
    pub status: AppUpdatingStatusStatus,
}

impl ModUpdatingStatus {
    /// The add-on's key followed by its status label in parentheses.
    pub fn get_status_string(&self) -> (r: String)
        ensures
            r@ == spec_status_line(self.app@.spec_app_name(), self.status),
    {
        let mut r = self.app.get_app_name();
        r.append(" (");
        match self.status {
            AppUpdatingStatusStatus::Pending => r.append("Pending"),
            AppUpdatingStatusStatus::OnGoing => r.append("On Going"),
            AppUpdatingStatusStatus::Updated => r.append("Updated"),
            AppUpdatingStatusStatus::Failed => r.append("Failed"),
        }
        r.append(")");
        r
    }
}

/// Whether a to-do entry is still open or done.
#[derive(Clone, Copy, Debug, PartialEq, Eq, PartialOrd, Ord, Hash, Structural)]
pub enum Status {
    Todo,
    Completed,
}

/// One entry of the to-do list widget.
#[derive(Debug)]
pub struct TodoItem {
    pub todo: String,
    pub info: String,
    pub status: Status,
}

impl TodoItem {
    /// An entry with the given status, title and description.
    pub fn new(status: Status, todo: &str, info: &str) -> (r: Self)
        ensures
            r.status == status,
            r.todo@ == todo@,
            r.info@ == info@,
    {
        TodoItem { status, todo: todo.to_owned(), info: info.to_owned() }
    }
}

} // verus!
