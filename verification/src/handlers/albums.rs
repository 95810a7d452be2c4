//! Albums: messages that belong together and make one question.

use crate::storage::shelf::Shelf;
use crate::telegram::types::Message;
use vstd::prelude::*;

verus! {

/// The albums that are being gathered, by their ids.
#[derive(Debug)]
pub struct Albums {
    shelf: Shelf<Vec<Message>>,
}

/// An album with one message more.
pub open spec fn with_message(
    albums: Map<Seq<char>, Seq<Message>>,
    id: Seq<char>,
    msg: Message,
) -> Map<Seq<char>, Seq<Message>> {
    albums.insert(id, gathered(albums, id).push(msg))
}

/// The messages of an album so far.
pub open spec fn gathered(albums: Map<Seq<char>, Seq<Message>>, id: Seq<char>) -> Seq<Message> {
    if albums.dom().contains(id) {
        albums[id]
    } else {
        Seq::empty()
    }
}

impl View for Albums {
    type V = Map<Seq<char>, Seq<Message>>;

    closed spec fn view(&self) -> Map<Seq<char>, Seq<Message>> {
        Map::new(
            |id: Seq<char>| self.shelf.map().dom().contains((id, ""@)),
            |id: Seq<char>| self.shelf.map()[(id, ""@)],
        )
    }
}

impl Albums {
    /// Whether the albums are in order.
    pub closed spec fn inv(&self) -> bool {
        self.shelf.inv()
    }

    /// No albums.
    pub fn new() -> (r: Albums)
        ensures
            r.inv(),
            r@ == Map::<Seq<char>, Seq<Message>>::empty(),
    {
        let r = Albums { shelf: Shelf::new() };
        assert(r@ =~= Map::<Seq<char>, Seq<Message>>::empty());
        r
    }

    /// Adds a message to its album; the first one waits for the others.
    pub fn put(&mut self, id: &str, msg: Message) -> (first: bool)
        requires
            old(self).inv(),
        ensures
            final(self).inv(),
            final(self)@ == with_message(old(self)@, id@, msg),
            first == (gathered(old(self)@, id@).len() == 0),
    {
        let ghost before = self@;
        let mut list: Vec<Message> = match self.shelf.remove(id, "") {
            Some(l) => l,
            None => Vec::new(),
        };
        assert(list@ =~= gathered(before, id@));
        let first: bool = list.len() == 0;
        list.push(msg);
        self.shelf.insert(id, "", list);
        assert(self@ =~= with_message(before, id@, msg));
        first
    }

    /// Takes an album out.
    pub fn take(&mut self, id: &str) -> (r: Vec<Message>)
        requires
            old(self).inv(),
        ensures
            final(self).inv(),
            final(self)@ == old(self)@.remove(id@),
            r@ == gathered(old(self)@, id@),
    {
        let ghost before = self@;
        let r: Vec<Message> = match self.shelf.remove(id, "") {
            Some(l) => l,
            None => Vec::new(),
        };
        assert(self@ =~= before.remove(id@));
        assert(r@ =~= gathered(before, id@));
        r
    }
}

/// The albums after the first `n` messages of a list came in under one id.
pub open spec fn after_messages(
    albums: Map<Seq<char>, Seq<Message>>,
    id: Seq<char>,
    list: Seq<Message>,
    n: nat,
) -> Map<Seq<char>, Seq<Message>>
    decreases n,
{
    if n == 0 {
        albums
    } else {
        with_message(after_messages(albums, id, list, (n - 1) as nat), id, list[n - 1])
    }
}

/// An album is one question: of its messages only the first starts one, what is
/// taken out are all of them in the order in which they came, and no other album
/// is touched.
pub proof fn albums_are_one_question(
    albums: Map<Seq<char>, Seq<Message>>,
    id: Seq<char>,
    list: Seq<Message>,
    n: nat,
    other: Seq<char>,
)
    requires
        !albums.dom().contains(id),
        n <= list.len(),
        other != id,
    ensures
        gathered(after_messages(albums, id, list, n), id) == list.take(n as int),
        gathered(after_messages(albums, id, list, n), id).len() == 0 <==> n == 0,
        gathered(after_messages(albums, id, list, n), other) == gathered(albums, other),
        gathered(after_messages(albums, id, list, n).remove(id), id).len() == 0,
    decreases n,
{
    if n > 0 {
        albums_are_one_question(albums, id, list, (n - 1) as nat, other);
        assert(list.take(n as int) =~= list.take(n - 1).push(list[n - 1]));
    } else {
        assert(list.take(0) =~= Seq::<Message>::empty());
    }
}

}
