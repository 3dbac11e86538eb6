//! What is kept of the messages of a group, and how titles and threads are found.
use super::context;
use crate::clock;
use crate::clock::Clock;
use crate::group_log;
use crate::group_log::LogLine;
use crate::id_table;
use crate::json;
use crate::state::directory;
use crate::state::directory::GroupTitles;
use crate::state::history;
use crate::state::history::{GroupHistory, GroupMessage, MessageView};
use crate::state::sessions;
use crate::text::model;
use vstd::prelude::*;
use vstd::string::*;

verus! {

/// A message that was seen in a group.
pub struct ObservedGroupMessage<'a> {
    pub group_id: i64,
    pub group_title: Option<&'a str>,
    pub user_id: i64,
    pub display_name: &'a str,
    pub text: &'a str,
    pub timestamp_secs: u64,
    pub message_id: Option<i64>,
}

/// What is stored of a message beside its place in the history.
pub struct GroupRecord {
    /// The title under which the group is stored; it is empty where none is known.
    pub title: String,
    /// The name under which the sender is stored as a member, if they are.
    pub member: Option<String>,
    /// The line of the log.
    pub log: LogLine,
}

/// Keeps a message that was seen in a group. `max_size` is how many messages the history holds.
pub fn record_observed_group_message(
    titles: &mut GroupTitles,
    history: &mut GroupHistory,
    max_size: usize,
    message: ObservedGroupMessage<'_>,
    clock: &Clock,
) -> (r: GroupRecord)
    ensures
        r.title@ == (match json::str_view(message.group_title) {
            Some(t) => model::trimmed(t),
            None => Seq::<char>::empty(),
        }),
        final(titles)@ == (if r.title@.len() == 0 {
            old(titles)@
        } else {
            id_table::with(old(titles)@, message.group_id, r.title@)
        }),
        json::text_view(r.member) == (if message.user_id == 0 {
            None
        } else {
            Some(directory::listed_name(message.user_id as int, message.display_name@))
        }),
        final(history)@ == history::recorded(
            old(history)@,
            sessions::session_key("group"@, message.group_id as int),
            MessageView {
                display_name: message.display_name@,
                text: message.text@,
                timestamp: message.timestamp_secs,
                message_id: json::int_view(message.message_id),
                is_bot: false,
            },
            max_size as nat,
        ),
        r.log.file_name@ == group_log::log_file(
            message.group_id as int,
            clock::local_moment(clock@, message.timestamp_secs),
        ),
        r.log.line@ == group_log::log_line(
            clock::local_moment(clock@, message.timestamp_secs),
            json::int_view(message.message_id),
            group_log::log_sender(
                message.display_name@,
                false,
                Some(message.user_id as int),
                None,
            ),
            message.text@,
        ),
{
    let title = titles.touch_group(message.group_id, message.group_title);
    let member = if message.user_id != 0 {
        Some(directory::record_group_member(message.user_id, message.display_name))
    } else {
        None
    };
    let key = sessions::group_session_key(message.group_id);
    let kept = GroupMessage {
        display_name: message.display_name.to_owned(),
        text: message.text.to_owned(),
        timestamp: message.timestamp_secs,
        message_id: message.message_id,
        is_bot: false,
    };
    history.record_group_message(&key, kept, max_size);
    let log = group_log::append_alma_group_log_at(
        message.group_id,
        message.display_name,
        message.text,
        false,
        message.timestamp_secs,
        message.message_id,
        Some(message.user_id),
        None,
        clock,
    );
    GroupRecord { title, member, log }
}

/// Keeps a message that Alma sent to a group, and hands back the line of the log.
pub fn record_alma_group_output(
    history: &mut GroupHistory,
    max_size: usize,
    group_id: i64,
    text: &str,
    message_id: Option<i64>,
    timestamp_secs: u64,
    clock: &Clock,
) -> (r: LogLine)
    ensures
        final(history)@ == history::recorded(
            old(history)@,
            sessions::session_key("group"@, group_id as int),
            MessageView {
                display_name: "Alma"@,
                text: text@,
                timestamp: timestamp_secs,
                message_id: json::int_view(message_id),
                is_bot: true,
            },
            max_size as nat,
        ),
        r.file_name@ == group_log::log_file(
            group_id as int,
            clock::local_moment(clock@, timestamp_secs),
        ),
        r.line@ == group_log::log_line(
            clock::local_moment(clock@, timestamp_secs),
            json::int_view(message_id),
            group_log::log_sender("Alma"@, true, None, None),
            text@,
        ),
{
    let key = sessions::group_session_key(group_id);
    let kept = GroupMessage {
        display_name: "Alma".to_owned(),
        text: text.to_owned(),
        timestamp: timestamp_secs,
        message_id,
        is_bot: true,
    };
    history.record_group_message(&key, kept, max_size);
    group_log::append_alma_group_log_at(
        group_id,
        "Alma",
        text,
        true,
        timestamp_secs,
        message_id,
        None,
        None,
        clock,
    )
}

/// How the title of a group is found.
pub enum TitleSource {
    /// It is known, or there is none to find.
    Known(Option<String>),
    /// It has to be asked for.
    Unknown,
}

/// Looks for the title of a group among those that were seen. A private chat has none.
pub fn resolve_group_title(titles: &GroupTitles, is_group: bool, group_id: i64) -> (r: TitleSource)
    ensures
        match r {
            TitleSource::Known(None) => !is_group,
            TitleSource::Known(Some(t)) => is_group && id_table::holds(titles@, group_id) && t@
                == id_table::value(titles@, group_id),
            TitleSource::Unknown => is_group && !id_table::holds(titles@, group_id),
        },
{
    if !is_group {
        return TitleSource::Known(None);
    }
    match titles.get_group_title(group_id) {
        Some(t) => TitleSource::Known(Some(t.to_owned())),
        None => TitleSource::Unknown,
    }
}

/// Takes note of the title that a group was found to have, if one was found.
pub fn learn_group_title(
    titles: &mut GroupTitles,
    group_id: i64,
    answer: Result<Option<String>, String>,
) -> (r: Option<String>)
    ensures
        json::text_view(r) == (match answer {
            Ok(t) => json::text_view(t),
            Err(_) => None,
        }),
        final(titles)@ == (match json::text_view(r) {
            Some(t) => id_table::with(old(titles)@, group_id, t),
            None => old(titles)@,
        }),
{
    match answer {
        Ok(Some(t)) => {
            titles.set_group_title(group_id, &t);
            Some(t)
        },
        _ => None,
    }
}

/// How the thread of a session is found.
pub enum ThreadStep {
    /// See whether this thread still exists.
    Check(String),
    /// Make a thread with this title.
    Create(String),
    /// This is the thread.
    Use(String),
    /// It cannot be found.
    Fail(String),
}

/// The first step to the thread of a session: the thread that the session is mapped to is
/// looked at; where there is none, one is made.
pub fn resolve_thread_for_session(
    mapped: Option<String>,
    is_group: bool,
    group_id: i64,
    sender_nickname: &str,
) -> (r: ThreadStep)
    ensures
        match mapped {
            Some(id) => r == ThreadStep::Check(id),
            None => r matches ThreadStep::Create(title) && title@ == context::title_of_thread(
                is_group,
                group_id as int,
                sender_nickname@,
            ),
        },
{
    match mapped {
        Some(id) => ThreadStep::Check(id),
        None => ThreadStep::Create(context::thread_title(is_group, group_id, sender_nickname)),
    }
}

/// The step after a thread was looked at: one that exists is used; in the place of one that
/// does not, one is made.
pub fn resolve_checked_thread(
    thread_id: String,
    exists_there: Result<bool, String>,
    is_group: bool,
    group_id: i64,
    sender_nickname: &str,
) -> (r: ThreadStep)
    ensures
        match exists_there {
            Ok(true) => r == ThreadStep::Use(thread_id),
            Ok(false) => r matches ThreadStep::Create(title) && title@
                == context::title_of_thread(is_group, group_id as int, sender_nickname@),
            Err(e) => r == ThreadStep::Fail(e),
        },
{
    match exists_there {
        Ok(true) => ThreadStep::Use(thread_id),
        Ok(false) => ThreadStep::Create(
            context::thread_title(is_group, group_id, sender_nickname),
        ),
        Err(e) => ThreadStep::Fail(e),
    }
}

} // verus!
