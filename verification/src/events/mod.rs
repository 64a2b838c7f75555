//! Decisions that the bot takes on gateway events.
use vstd::prelude::*;

verus! {

/// A configured introduction for threads created in some channels.
pub struct ThreadIntroduction {
    pub channels: Vec<u64>,
    pub message: Option<String>,
}

/// What the bot says in a new thread.
pub enum IntroductionDecision {
    /// Nothing: the bot joined the thread, or no introduction applies.
    Nothing,
    /// This message.
    Say(String),
    /// The thread has no parent channel while some introduction names
    /// channels, or the introduction that applies has no message.
    Invalid,
}

/// The first introduction that names the channel.
pub open spec fn first_introduction(intros: Seq<ThreadIntroduction>, channel: u64, i: int) -> bool {
    &&& 0 <= i < intros.len()
    &&& intros[i].channels@.contains(channel)
    &&& forall|j: int| 0 <= j < i ==> !(#[trigger] intros[j]).channels@.contains(channel)
}

/// What the bot says in a thread created in the channel `parent_id`
/// (the decision of `thread_create`); `joined` tells that the event is
/// the bot joining the thread.
#[verifier::loop_isolation(false)]
pub fn thread_introduction(joined: bool, parent_id: Option<u64>, intros: &Vec<ThreadIntroduction>) -> (r: IntroductionDecision)
    ensures
        joined ==> r is Nothing,
        !joined && parent_id is None ==> (if exists|i: int| 0 <= i < intros@.len() && (#[trigger] intros@[i]).channels@.len() > 0 {
            r is Invalid
        } else {
            r is Nothing
        }),
        (!joined && parent_id is Some) ==> (if exists|i: int| first_introduction(intros@, parent_id->0, i) {
            let i = choose|i: int| first_introduction(intros@, parent_id->0, i);
            match intros@[i].message {
                Some(m) => r matches IntroductionDecision::Say(s) && s@ == m@,
                None => r is Invalid,
            }
        } else {
            r is Nothing
        }),
{
    if joined {
        return IntroductionDecision::Nothing;
    }
    let mut i: usize = 0;
    while i < intros.len()
        invariant
            i <= intros.len(),
            parent_id is None ==> forall|j: int| 0 <= j < i ==> (#[trigger] intros@[j]).channels@.len() == 0,
            parent_id is Some ==> forall|j: int| 0 <= j < i ==> !(#[trigger] intros@[j]).channels@.contains(parent_id->0),
        decreases intros.len() - i,
    {
        let intro = &intros[i];
        if intro.channels.len() > 0 {
            match parent_id {
                None => {
                    return IntroductionDecision::Invalid;
                },
                Some(p) => {
                    let mut k: usize = 0;
                    while k < intro.channels.len()
                        invariant
                            k <= intro.channels.len(),
                            forall|m: int| 0 <= m < k ==> intro.channels@[m] != p,
                        decreases intro.channels.len() - k,
                    {
                        if intro.channels[k] == p {
                            proof {
                                assert(intro.channels@[k as int] == p);
                                assert(first_introduction(intros@, p, i as int));
                                let c = choose|c: int| first_introduction(intros@, p, c);
                                if c < i {
                                    assert(!intros@[c].channels@.contains(p));
                                } else if c > i {
                                    assert(!intros@[i as int].channels@.contains(p));
                                }
                            }
                            return match &intro.message {
                                Some(m) => IntroductionDecision::Say(m.clone()),
                                None => IntroductionDecision::Invalid,
                            };
                        }
                        k += 1;
                    }
                },
            }
        }
        i += 1;
    }
    IntroductionDecision::Nothing
}

/// Whether the bot unarchives an updated thread: it is archived but not
/// locked (the check of `thread_update`). `metadata` holds the thread's
/// archived and locked flags, where it is a thread.
pub fn keep_thread_alive(metadata: Option<(bool, bool)>) -> (b: bool)
    ensures
        b == (metadata matches Some((archived, locked)) && archived && !locked),
{
    match metadata {
        Some((archived, locked)) => archived && !locked,
        None => false,
    }
}

} // verus!
