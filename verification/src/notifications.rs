//! Toast-style notifications shown to the user: creation with a
//! per-kind display duration, expiry against the wall clock, and a
//! manager that keeps the newest few.

use std::collections::VecDeque;
use vstd::prelude::*;

verus! {

/// Relies on chrono's `Utc::now` and `DateTime::timestamp_millis` for
/// the current wall-clock time as milliseconds since the Unix epoch.
/// `Utc::now` refuses a pre-epoch system clock, so the result is
/// non-negative.
#[verifier::external_body]
fn utc_now_millis() -> (r: i64)
    ensures
        r >= 0,
{
    chrono::Utc::now().timestamp_millis()
}

/// The notifications of `s` still unexpired at `now_ms`, in order.
pub open spec fn spec_kept_at(s: Seq<Notification>, now_ms: i64) -> Seq<Notification> {
    s.filter(|n: Notification| !n.spec_expired_at(now_ms))
}

/// What kind of toast a notification is; the kind decides colour, icon
/// and how long it stays on screen.
#[derive(Clone, Copy, Debug, PartialEq, Eq, Structural)]
pub enum NotificationType {
    Info,
    Success,
    Error,
}

/// How long a notification of each kind stays on screen.
pub open spec fn spec_duration_ms(t: NotificationType) -> u32 {
    match t {
        NotificationType::Error => 8000,
        NotificationType::Success => 4000,
        NotificationType::Info => 3000,
    }
}

/// One on-screen notification.
#[derive(Debug)]
pub struct Notification {
    /// Assigned by the manager; zero until then.
    pub id: usize,
    pub message: String,
    pub notification_type: NotificationType,
    pub created_at_ms: i64,
    pub duration_ms: u32,
}

impl Notification {
    /// A notification created at a known instant: errors stay for eight
    /// seconds, successes for four, information for three.
    pub fn new_at(message: String, notification_type: NotificationType, now_ms: i64) -> (r: Self)
        ensures
            r.id == 0,
            r.message == message,
            r.notification_type == notification_type,
            r.created_at_ms == now_ms,
            r.duration_ms == spec_duration_ms(notification_type),
    {
        let duration_ms: u32 = match notification_type {
            NotificationType::Error => 8000,
            NotificationType::Success => 4000,
            NotificationType::Info => 3000,
        };
        Notification { id: 0, message, notification_type, created_at_ms: now_ms, duration_ms }
    }

    /// A notification created now, by the wall clock.
    pub fn new(message: String, notification_type: NotificationType) -> (r: Self)
        ensures
            r.id == 0,
            r.message == message,
            r.notification_type == notification_type,
            r.created_at_ms >= 0,
            r.duration_ms == spec_duration_ms(notification_type),
    {
        let now_ms = utc_now_millis();
        Notification::new_at(message, notification_type, now_ms)
    }

    /// Whether the notification is past its display duration at the
    /// given instant.
    pub open spec fn spec_expired_at(&self, now_ms: i64) -> bool {
        now_ms - self.created_at_ms > self.duration_ms
    }

    /// Whether the notification is past its display duration at the
    /// given instant.
    pub fn is_expired_at(&self, now_ms: i64) -> (r: bool)
        ensures
            r == self.spec_expired_at(now_ms),
    {
        (now_ms as i128) - (self.created_at_ms as i128) > self.duration_ms as i128
    }

    /// Whether the notification is past its display duration now, by
    /// the wall clock.  The clock is read once; the result is what
    /// [`Self::is_expired_at`] says of that reading.
    pub fn is_expired(&self) -> (r: bool)
        ensures
            exists|now_ms: i64| now_ms >= 0 && r == #[trigger] self.spec_expired_at(now_ms),
    {
        let now_ms = utc_now_millis();
        self.is_expired_at(now_ms)
    }

    /// Glyph shown beside the message.
    pub fn get_icon(&self) -> (r: &'static str)
        ensures
            self.notification_type is Info ==> r@ == "i"@,
            self.notification_type is Success ==> r@ == "+"@,
            self.notification_type is Error ==> r@ == "x"@,
    {
        match self.notification_type {
            NotificationType::Info => "i",
            NotificationType::Success => "+",
            NotificationType::Error => "x",
        }
    }
}

/// Keeps the newest few notifications, assigns their identifiers, and
/// drops the expired ones.
pub struct NotificationManager {
    pub notifications: VecDeque<Notification>,
    pub next_id: usize,
    pub max_notifications: usize,
}

impl Default for NotificationManager {
    /// An empty manager showing at most five notifications at once.
    fn default() -> (r: Self)
        ensures
            r.notifications@ =~= Seq::<Notification>::empty(),
            r.next_id == 1,
            r.max_notifications == 5,
    {
        NotificationManager { notifications: VecDeque::new(), next_id: 1, max_notifications: 5 }
    }
}

impl NotificationManager {
    /// Adds a notification under a fresh identifier; when the display
    /// is full the oldest one makes room.
    pub fn add_notification(&mut self, notification: Notification)
        requires
            old(self).next_id < usize::MAX,
            old(self).max_notifications >= 1,
        ensures
            final(self).next_id == old(self).next_id + 1,
            final(self).max_notifications == old(self).max_notifications,
            final(self).notifications@ == (if old(self).notifications@.len() >= old(
                self,
            ).max_notifications {
                old(self).notifications@.drop_first()
            } else {
                old(self).notifications@
            }).push(
                Notification {
                    id: old(self).next_id,
                    message: notification.message,
                    notification_type: notification.notification_type,
                    created_at_ms: notification.created_at_ms,
                    duration_ms: notification.duration_ms,
                },
            ),
    {
        let mut notification = notification;
        notification.id = self.next_id;
        self.next_id = self.next_id + 1;
        if self.notifications.len() >= self.max_notifications {
            let _ = self.notifications.pop_front();
        }
        self.notifications.push_back(notification);
        proof {
            assert(self.notifications@ =~= (if old(self).notifications@.len() >= old(
                self,
            ).max_notifications {
                old(self).notifications@.drop_first()
            } else {
                old(self).notifications@
            }).push(self.notifications@.last()));
        }
    }

    /// Adds an information notification created now.
    pub fn add_info(&mut self, message: String)
        requires
            old(self).next_id < usize::MAX,
            old(self).max_notifications >= 1,
        ensures
            final(self).next_id == old(self).next_id + 1,
            final(self).max_notifications == old(self).max_notifications,
            final(self).notifications@.len() > 0,
            final(self).notifications@.drop_last() == (if old(self).notifications@.len() >= old(
                self,
            ).max_notifications {
                old(self).notifications@.drop_first()
            } else {
                old(self).notifications@
            }),
            final(self).notifications@.last().id == old(self).next_id,
            final(self).notifications@.last().message == message,
            final(self).notifications@.last().notification_type is Info,
            final(self).notifications@.last().duration_ms == 3000,
            final(self).notifications@.last().created_at_ms >= 0,
    {
        let notification = Notification::new(message, NotificationType::Info);
        self.add_notification(notification);
    }

    /// Adds a success notification created now.
    pub fn add_success(&mut self, message: String)
        requires
            old(self).next_id < usize::MAX,
            old(self).max_notifications >= 1,
        ensures
            final(self).next_id == old(self).next_id + 1,
            final(self).max_notifications == old(self).max_notifications,
            final(self).notifications@.len() > 0,
            final(self).notifications@.drop_last() == (if old(self).notifications@.len() >= old(
                self,
            ).max_notifications {
                old(self).notifications@.drop_first()
            } else {
                old(self).notifications@
            }),
            final(self).notifications@.last().id == old(self).next_id,
            final(self).notifications@.last().message == message,
            final(self).notifications@.last().notification_type is Success,
            final(self).notifications@.last().duration_ms == 4000,
            final(self).notifications@.last().created_at_ms >= 0,
    {
        let notification = Notification::new(message, NotificationType::Success);
        self.add_notification(notification);
    }

    /// Adds an error notification created now.
    pub fn add_error(&mut self, message: String)
        requires
            old(self).next_id < usize::MAX,
            old(self).max_notifications >= 1,
        ensures
            final(self).next_id == old(self).next_id + 1,
            final(self).max_notifications == old(self).max_notifications,
            final(self).notifications@.len() > 0,
            final(self).notifications@.drop_last() == (if old(self).notifications@.len() >= old(
                self,
            ).max_notifications {
                old(self).notifications@.drop_first()
            } else {
                old(self).notifications@
            }),
            final(self).notifications@.last().id == old(self).next_id,
            final(self).notifications@.last().message == message,
            final(self).notifications@.last().notification_type is Error,
            final(self).notifications@.last().duration_ms == 8000,
            final(self).notifications@.last().created_at_ms >= 0,
    {
        let notification = Notification::new(message, NotificationType::Error);
        self.add_notification(notification);
    }

    /// Removes the notification with the given identifier, if shown.
    pub fn remove_notification(&mut self, id: usize)
        ensures
            final(self).next_id == old(self).next_id,
            final(self).max_notifications == old(self).max_notifications,
            final(self).notifications@ == old(self).notifications@.filter(
                |n: Notification| n.id != id,
            ),
    {
        let ghost orig = self.notifications@;
        let ghost pred = |n: Notification| n.id != id;
        let mut kept: VecDeque<Notification> = VecDeque::new();
        let ghost mut consumed: int = 0;
        proof {
            reveal(Seq::filter);
        }
        loop
            invariant
                0 <= consumed <= orig.len(),
                (pred == (|n: Notification| n.id != id)),
                self.notifications@ == orig.skip(consumed),
                self.next_id == old(self).next_id,
                self.max_notifications == old(self).max_notifications,
                kept@ == orig.subrange(0, consumed).filter(pred),
            ensures
                kept@ == orig.filter(pred),
                self.next_id == old(self).next_id,
                self.max_notifications == old(self).max_notifications,
            decreases orig.len() - consumed,
        {
            let n = match self.notifications.pop_front() {
                Some(n) => n,
                None => {
                    proof {
                        assert(consumed == orig.len());
                        assert(orig.subrange(0, consumed) =~= orig);
                    }
                    break ;
                },
            };
            proof {
                assert(n == orig[consumed]);
                assert(orig.subrange(0, consumed + 1).drop_last() =~= orig.subrange(0, consumed));
                reveal(Seq::filter);
            }
            if n.id != id {
                kept.push_back(n);
            }
            proof {
                assert(kept@ =~= orig.subrange(0, consumed + 1).filter(pred));
                consumed = consumed + 1;
                assert(self.notifications@ =~= orig.skip(consumed));
            }
        }
        proof {
            assert(orig.subrange(0, orig.len() as int) =~= orig);
        }
        self.notifications = kept;
    }

    /// Removes every notification that is expired at the given instant.
    pub fn remove_expired_at(&mut self, now_ms: i64)
        ensures
            final(self).next_id == old(self).next_id,
            final(self).max_notifications == old(self).max_notifications,
            final(self).notifications@ == spec_kept_at(old(self).notifications@, now_ms),
    {
        let ghost orig = self.notifications@;
        let mut kept: VecDeque<Notification> = VecDeque::new();
        let ghost mut consumed: int = 0;
        proof {
            reveal(Seq::filter);
        }
        loop
            invariant
                0 <= consumed <= orig.len(),
                self.notifications@ == orig.skip(consumed),
                self.next_id == old(self).next_id,
                self.max_notifications == old(self).max_notifications,
                kept@ == spec_kept_at(orig.subrange(0, consumed), now_ms),
            ensures
                kept@ == spec_kept_at(orig, now_ms),
                self.next_id == old(self).next_id,
                self.max_notifications == old(self).max_notifications,
            decreases orig.len() - consumed,
        {
            let n = match self.notifications.pop_front() {
                Some(n) => n,
                None => {
                    proof {
                        assert(consumed == orig.len());
                        assert(orig.subrange(0, consumed) =~= orig);
                    }
                    break ;
                },
            };
            proof {
                assert(n == orig[consumed]);
                assert(orig.subrange(0, consumed + 1).drop_last() =~= orig.subrange(0, consumed));
                reveal(Seq::filter);
            }
            if !n.is_expired_at(now_ms) {
                kept.push_back(n);
            }
            proof {
                assert(kept@ =~= spec_kept_at(orig.subrange(0, consumed + 1), now_ms));
                consumed = consumed + 1;
                assert(self.notifications@ =~= orig.skip(consumed));
            }
        }
        proof {
            assert(orig.subrange(0, orig.len() as int) =~= orig);
        }
        self.notifications = kept;
    }

    /// Removes every notification that is expired now, by the wall
    /// clock.  The clock is read once for the whole sweep.
    pub fn update(&mut self)
        ensures
            final(self).next_id == old(self).next_id,
            final(self).max_notifications == old(self).max_notifications,
            exists|now_ms: i64|
                now_ms >= 0 && final(self).notifications@ == #[trigger] spec_kept_at(
                    old(self).notifications@,
                    now_ms,
                ),
    {
        let now_ms = utc_now_millis();
        self.remove_expired_at(now_ms);
    }
}

} // verus!
