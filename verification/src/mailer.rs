//! Where login links go: the log in development, memory in tests.
use vstd::prelude::*;
use vstd::string::*;

verus! {

/// Development mailer: writes the login link to the log instead of sending it.
#[derive(Debug, Clone, Copy)]
pub struct ConsoleMailer;

/// The recipient and link of each message sent.
pub open spec fn messages_view(v: Seq<(String, String)>) -> Seq<(Seq<char>, Seq<char>)> {
    v.map_values(|m: (String, String)| (m.0@, m.1@))
}

/// Test mailer: keeps every message in memory for assertions.
#[derive(Debug, Default)]
pub struct RecordingMailer {
    messages: Vec<(String, String)>,
}

impl View for RecordingMailer {
    type V = Seq<(Seq<char>, Seq<char>)>;

    closed spec fn view(&self) -> Seq<(Seq<char>, Seq<char>)> {
        messages_view(self.messages@)
    }
}

impl RecordingMailer {
    pub fn new() -> (m: RecordingMailer)
        ensures
            m@ == Seq::<(Seq<char>, Seq<char>)>::empty(),
    {
        let m = RecordingMailer { messages: Vec::new() };
        assert(m@ =~= Seq::<(Seq<char>, Seq<char>)>::empty());
        m
    }

    /// Keeps a message sent to `to` with `link`.
    pub fn send_login_link(&mut self, to: &str, link: &str)
        ensures
            final(self)@ == old(self)@.push((to@, link@)),
    {
        self.messages.push((String::from_str(to), String::from_str(link)));
        assert(messages_view(self.messages@) =~= messages_view(old(self).messages@).push((to@, link@)));
    }

    /// Every message sent so far, oldest first.
    pub fn sent(&self) -> (r: Vec<(String, String)>)
        ensures
            messages_view(r@) == self@,
    {
        let mut r: Vec<(String, String)> = Vec::new();
        let mut i: usize = 0;
        while i < self.messages.len()
            invariant
                i <= self.messages@.len(),
                messages_view(r@) == messages_view(self.messages@).take(i as int),
            decreases self.messages.len() - i,
        {
            let ghost before = r@;
            let m = &self.messages[i];
            let to = m.0.clone();
            let link = m.1.clone();
            assert(to@ == self.messages@[i as int].0@ && link@ == self.messages@[i as int].1@);
            r.push((to, link));
            assert(r@ == before.push(r@.last()));
            assert(messages_view(r@) =~= messages_view(before).push((self.messages@[i as int].0@, self.messages@[i as int].1@)));
            assert(messages_view(self.messages@).take(i + 1) =~= messages_view(self.messages@).take(i as int).push(messages_view(self.messages@)[i as int]));
            assert(messages_view(r@) =~= messages_view(self.messages@).take(i + 1));
            i = i + 1;
        }
        assert(messages_view(self.messages@).take(self.messages@.len() as int) =~= messages_view(
            self.messages@,
        ));
        r
    }
}

/// Development-and-test mailer that retains the most recent link so an
/// end-to-end suite can follow it.
#[derive(Debug, Default)]
pub struct LastLinkMailer {
    last: Option<String>,
}

impl View for LastLinkMailer {
    type V = Option<Seq<char>>;

    closed spec fn view(&self) -> Option<Seq<char>> {
        match self.last {
            Some(l) => Some(l@),
            None => None,
        }
    }
}

impl LastLinkMailer {
    pub fn new() -> (m: LastLinkMailer)
        ensures
            m@ is None,
    {
        LastLinkMailer { last: None }
    }

    /// Remembers `link` as the most recent one; the recipient is only logged.
    pub fn send_login_link(&mut self, to: &str, link: &str)
        ensures
            final(self)@ == Some(link@),
    {
        self.last = Some(String::from_str(link));
    }

    /// The most recent link sent, if any.
    pub fn last(&self) -> (r: Option<String>)
        ensures
            match r {
                Some(l) => self@ == Some(l@),
                None => self@ is None,
            },
    {
        match &self.last {
            Some(l) => Some(l.clone()),
            None => None,
        }
    }
}

/// A recording mailer keeps every message of a run of sends, in call order:
/// starting empty, with each send appending its message (as `send_login_link`
/// does), the messages kept after `n` sends are exactly those `n`, which is
/// what `sent` returns, as often as it is asked, since it only reads.
pub proof fn lemma_recording_keeps_every_send(
    states: Seq<Seq<(Seq<char>, Seq<char>)>>,
    sends: Seq<(Seq<char>, Seq<char>)>,
)
    requires
        states.len() == sends.len() + 1,
        states[0] == Seq::<(Seq<char>, Seq<char>)>::empty(),
        forall|i: int| 0 <= i < sends.len() ==> #[trigger] states[i + 1] == states[i].push(sends[i]),
    ensures
        states.last() == sends,
{
    assert forall|k: int| 0 <= k <= sends.len() implies #[trigger] states[k] == sends.take(k) by {
        lemma_recorded_prefix(states, sends, k);
    }
    assert(sends.take(sends.len() as int) =~= sends);
}

proof fn lemma_recorded_prefix(
    states: Seq<Seq<(Seq<char>, Seq<char>)>>,
    sends: Seq<(Seq<char>, Seq<char>)>,
    k: int,
)
    requires
        states.len() == sends.len() + 1,
        states[0] == Seq::<(Seq<char>, Seq<char>)>::empty(),
        forall|i: int| 0 <= i < sends.len() ==> #[trigger] states[i + 1] == states[i].push(sends[i]),
        0 <= k <= sends.len(),
    ensures
        states[k] == sends.take(k),
    decreases k,
{
    if k == 0 {
        assert(sends.take(0) =~= Seq::<(Seq<char>, Seq<char>)>::empty());
    } else {
        lemma_recorded_prefix(states, sends, k - 1);
        assert(states[(k - 1) + 1] == states[k - 1].push(sends[k - 1]));
        assert(sends.take(k) =~= sends.take(k - 1).push(sends[k - 1]));
    }
}

/// A last-link mailer remembers only the most recent link of a run of sends:
/// starting with none, with each send replacing what it holds (as
/// `send_login_link` does), it holds nothing after no sends and the last link
/// after one or more, which is what `last` returns, as often as it is asked.
pub proof fn lemma_last_link_is_the_latest(states: Seq<Option<Seq<char>>>, links: Seq<Seq<char>>)
    requires
        states.len() == links.len() + 1,
        states[0] is None,
        forall|i: int| 0 <= i < links.len() ==> #[trigger] states[i + 1] == Some(links[i]),
    ensures
        states.last() == (if links.len() == 0 {
            None
        } else {
            Some(links.last())
        }),
{
    if links.len() > 0 {
        assert(states[(links.len() - 1) + 1] == Some(links[links.len() - 1]));
    }
}

} // verus!
