//! What the tools of a session last returned, for as long as the daemon runs.

use crate::text::same;
use crate::weburl::clone_option;
use vstd::prelude::*;

verus! {

/// A mail message that was found.
#[derive(Debug, PartialEq, Eq)]
pub struct MailRef {
    pub rowid: i64,
    pub message_id: Option<String>,
    pub subject: String,
    pub sender: String,
    /// The message is opened once the answer has begun.
    pub auto_open: bool,
}

impl Clone for MailRef {
    fn clone(&self) -> (r: Self)
        ensures
            r == *self,
    {
        MailRef {
            rowid: self.rowid,
            message_id: clone_option(&self.message_id),
            subject: self.subject.clone(),
            sender: self.sender.clone(),
            auto_open: self.auto_open,
        }
    }
}

/// A file or a folder that was found.
#[derive(Debug, PartialEq, Eq)]
pub struct FileRef {
    pub path: String,
    pub display_name: String,
    pub kind: String,
}

impl Clone for FileRef {
    fn clone(&self) -> (r: Self)
        ensures
            r == *self,
    {
        FileRef {
            path: self.path.clone(),
            display_name: self.display_name.clone(),
            kind: self.kind.clone(),
        }
    }
}

/// A record that was found.
#[derive(Debug, PartialEq, Eq)]
pub struct RecordRef {
    pub model: String,
    pub id: i64,
    pub name: String,
}

impl Clone for RecordRef {
    fn clone(&self) -> (r: Self)
        ensures
            r == *self,
    {
        RecordRef { model: self.model.clone(), id: self.id, name: self.name.clone() }
    }
}

/// A chat that was read.
#[derive(Debug, PartialEq, Eq)]
pub struct WhatsappRef {
    pub chat_id: String,
    pub contact_name: Option<String>,
    pub snippet: Option<String>,
    pub source: String,
    pub last_message_timestamp: Option<i64>,
}

impl Clone for WhatsappRef {
    fn clone(&self) -> (r: Self)
        ensures
            r == *self,
    {
        WhatsappRef {
            chat_id: self.chat_id.clone(),
            contact_name: clone_option(&self.contact_name),
            snippet: clone_option(&self.snippet),
            source: self.source.clone(),
            last_message_timestamp: self.last_message_timestamp,
        }
    }
}

/// The last things that the tools of a session returned.
#[derive(Debug, PartialEq, Eq)]
pub struct RuntimeRefs {
    pub mail: Option<MailRef>,
    pub file: Option<FileRef>,
    pub odoo: Option<RecordRef>,
    pub whatsapp: Option<WhatsappRef>,
}

impl Clone for RuntimeRefs {
    fn clone(&self) -> (r: Self)
        ensures
            r == *self,
    {
        RuntimeRefs {
            mail: match &self.mail {
                Some(found) => Some(found.clone()),
                None => None,
            },
            file: match &self.file {
                Some(found) => Some(found.clone()),
                None => None,
            },
            odoo: match &self.odoo {
                Some(found) => Some(found.clone()),
                None => None,
            },
            whatsapp: match &self.whatsapp {
                Some(found) => Some(found.clone()),
                None => None,
            },
        }
    }
}

pub open spec fn no_refs() -> RuntimeRefs {
    RuntimeRefs { mail: None, file: None, odoo: None, whatsapp: None }
}

impl RuntimeRefs {
    pub fn none() -> (r: Self)
        ensures
            r == no_refs(),
    {
        RuntimeRefs { mail: None, file: None, odoo: None, whatsapp: None }
    }
}

/// The references of each session.
#[derive(Debug, PartialEq, Eq)]
pub struct SessionRefs {
    pub entries: Vec<(String, RuntimeRefs)>,
}

/// The place of the first entry of a session.
pub open spec fn entry_place(entries: Seq<(String, RuntimeRefs)>, id: Seq<char>, i: int) -> int
    decreases entries.len() - i,
{
    if i < 0 || i >= entries.len() || entries[i].0@ == id {
        i
    } else {
        entry_place(entries, id, i + 1)
    }
}

proof fn lemma_place(entries: Seq<(String, RuntimeRefs)>, id: Seq<char>, i: int)
    requires
        0 <= i <= entries.len(),
    ensures
        i <= entry_place(entries, id, i) <= entries.len(),
        entry_place(entries, id, i) < entries.len() ==> entries[entry_place(entries, id, i)].0@
            == id,
        forall|j: int|
            i <= j < entry_place(entries, id, i) ==> #[trigger] entries[j].0@ != id,
    decreases entries.len() - i,
{
    if i < entries.len() && entries[i].0@ != id {
        lemma_place(entries, id, i + 1);
    }
}

proof fn lemma_place_unique(entries: Seq<(String, RuntimeRefs)>, id: Seq<char>, p: int)
    requires
        0 <= p <= entries.len(),
        p < entries.len() ==> entries[p].0@ == id,
        forall|j: int| 0 <= j < p ==> #[trigger] entries[j].0@ != id,
    ensures
        entry_place(entries, id, 0) == p,
{
    lemma_place(entries, id, 0);
    let q = entry_place(entries, id, 0);
    if q < p {
        assert(entries[q].0@ != id);
    }
}

impl SessionRefs {
    /// What is known of a session.
    pub open spec fn refs(&self, id: Seq<char>) -> RuntimeRefs {
        let place = entry_place(self.entries@, id, 0);
        if place < self.entries@.len() {
            self.entries@[place].1
        } else {
            no_refs()
        }
    }

    pub fn new() -> (r: Self)
        ensures
            forall|id: Seq<char>| #[trigger] r.refs(id) == no_refs(),
    {
        SessionRefs { entries: Vec::new() }
    }

    fn place_of(&self, id: &str) -> (r: usize)
        ensures
            r == entry_place(self.entries@, id@, 0),
            r <= self.entries@.len(),
    {
        let mut i: usize = 0;
        while i < self.entries.len()
            invariant
                i <= self.entries@.len(),
                entry_place(self.entries@, id@, 0) == entry_place(self.entries@, id@, i as int),
            decreases self.entries@.len() - i,
        {
            if same(self.entries[i].0.as_str(), id) {
                return i;
            }
            i = i + 1;
        }
        i
    }

    pub fn load_runtime_refs(&self, session_id: &str) -> (r: RuntimeRefs)
        ensures
            r == self.refs(session_id@),
    {
        let place: usize = self.place_of(session_id);
        if place < self.entries.len() {
            self.entries[place].1.clone()
        } else {
            RuntimeRefs::none()
        }
    }

    fn store(&mut self, session_id: &str, refs: RuntimeRefs)
        ensures
            final(self).refs(session_id@) == refs,
            forall|id: Seq<char>|
                id != session_id@ ==> #[trigger] final(self).refs(id) == old(self).refs(id),
    {
        let ghost before = self.entries@;
        let place: usize = self.place_of(session_id);
        proof {
            lemma_place(before, session_id@, 0);
        }
        if place < self.entries.len() {
            let name = self.entries[place].0.clone();
            self.entries.set(place, (name, refs));
        } else {
            self.entries.push((session_id.to_owned(), refs));
        }
        proof {
            let after = self.entries@;
            assert forall|j: int| 0 <= j < place implies #[trigger] after[j].0@
                != session_id@ by {
                assert(after[j] == before[j]);
            }
            lemma_place_unique(after, session_id@, place as int);
            assert forall|id: Seq<char>| id != session_id@ implies #[trigger] self.refs(id)
                == old(self).refs(id) by {
                lemma_place(before, id, 0);
                let q = entry_place(before, id, 0);
                let target = if q < before.len() {
                    q
                } else {
                    after.len() as int
                };
                assert forall|j: int| 0 <= j < target implies #[trigger] after[j].0@ != id by {
                    if j < before.len() {
                        assert(after[j].0@ == before[j].0@);
                        assert(before[j].0@ != id);
                    }
                }
                if q < before.len() {
                    assert(after[q].0@ == before[q].0@);
                }
                lemma_place_unique(after, id, target);
            }
        }
    }

    pub fn save_last_mail_ref(&mut self, session_id: &str, mail_ref: &MailRef)
        ensures
            final(self).refs(session_id@) == (RuntimeRefs {
                mail: Some(*mail_ref),
                ..old(self).refs(session_id@)
            }),
            forall|id: Seq<char>|
                id != session_id@ ==> #[trigger] final(self).refs(id) == old(self).refs(id),
    {
        let mut refs = self.load_runtime_refs(session_id);
        refs.mail = Some(mail_ref.clone());
        self.store(session_id, refs);
    }

    pub fn save_last_file_ref(&mut self, session_id: &str, file_ref: &FileRef)
        ensures
            final(self).refs(session_id@) == (RuntimeRefs {
                file: Some(*file_ref),
                ..old(self).refs(session_id@)
            }),
            forall|id: Seq<char>|
                id != session_id@ ==> #[trigger] final(self).refs(id) == old(self).refs(id),
    {
        let mut refs = self.load_runtime_refs(session_id);
        refs.file = Some(file_ref.clone());
        self.store(session_id, refs);
    }

    pub fn save_last_odoo_ref(&mut self, session_id: &str, odoo_ref: &RecordRef)
        ensures
            final(self).refs(session_id@) == (RuntimeRefs {
                odoo: Some(*odoo_ref),
                ..old(self).refs(session_id@)
            }),
            forall|id: Seq<char>|
                id != session_id@ ==> #[trigger] final(self).refs(id) == old(self).refs(id),
    {
        let mut refs = self.load_runtime_refs(session_id);
        refs.odoo = Some(odoo_ref.clone());
        self.store(session_id, refs);
    }

    pub fn save_last_whatsapp_ref(&mut self, session_id: &str, whatsapp_ref: &WhatsappRef)
        ensures
            final(self).refs(session_id@) == (RuntimeRefs {
                whatsapp: Some(*whatsapp_ref),
                ..old(self).refs(session_id@)
            }),
            forall|id: Seq<char>|
                id != session_id@ ==> #[trigger] final(self).refs(id) == old(self).refs(id),
    {
        let mut refs = self.load_runtime_refs(session_id);
        refs.whatsapp = Some(whatsapp_ref.clone());
        self.store(session_id, refs);
    }
}

} // verus!
