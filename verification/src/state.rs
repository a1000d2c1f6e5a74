//! The store of open documents and the two caches that hang on it.
use vstd::hash_map::StringHashMap;
use vstd::prelude::*;

use crate::action::{ActionData, ActionDataView};
use crate::encoding::{apply_changes, apply_content_changes, ChangeEvent, OffsetEncoding};
use crate::errors::Error;
use crate::rope::{rope_clone, rope_from_str, rope_len_chars, rope_slice_to_string, rope_text};
use crate::strings::str_eq;

verus! {

/// The hash of a text.
pub uninterp spec fn text_digest(text: Seq<char>) -> u64;

/// `BuildHasher::hash_one` on a default-keyed `DefaultHasher`: the hash of the
/// string. Equal strings hash alike.
#[verifier::external_body]
fn hash_text(text: &str) -> (digest: u64)
    ensures
        digest == text_digest(text@),
{
    std::hash::BuildHasher::hash_one(
        &std::hash::BuildHasherDefault::<std::hash::DefaultHasher>::default(),
        text,
    )
}

/// The content hash of a document: a function of its text alone, whatever edits
/// produced it.
pub fn calculate_hash(content: &ropey::Rope) -> (digest: u64)
    ensures
        digest == text_digest(rope_text(*content)),
{
    let len: usize = rope_len_chars(content);
    let text = rope_slice_to_string(content, 0, len);
    assert(rope_text(*content).subrange(0, len as int) =~= rope_text(*content));
    hash_text(text.as_str())
}

/// An open document: its text, and the content hash of that text.
pub struct Document {
    text: ropey::Rope,
    content_hash: u64,
}

impl Document {
    #[verifier::type_invariant]
    spec fn hash_is_current(self) -> bool {
        self.content_hash == text_digest(rope_text(self.text))
    }

    pub closed spec fn text(self) -> Seq<char> {
        rope_text(self.text)
    }

    pub fn new(text: ropey::Rope) -> (doc: Document)
        ensures
            doc.text() == rope_text(text),
    {
        let content_hash: u64 = calculate_hash(&text);
        Document { text, content_hash }
    }

    pub fn rope(&self) -> (text: &ropey::Rope)
        ensures
            rope_text(*text) == self.text(),
    {
        &self.text
    }

    pub fn content_hash(&self) -> (digest: u64)
        ensures
            digest == text_digest(self.text()),
    {
        proof {
            use_type_invariant(self);
        }
        self.content_hash
    }
}

/// What a command of the client asks the server to load anew.
#[derive(Clone, Copy, Debug, PartialEq, Eq, Structural)]
pub enum Reload {
    Actions,
    Snippets,
}

/// What a command asks for: `reload actions` and `reload snippets` are the
/// commands there are.
pub open spec fn command_reload(command: Seq<char>) -> Option<Reload> {
    if command == "reload actions"@ {
        Some(Reload::Actions)
    } else if command == "reload snippets"@ {
        Some(Reload::Snippets)
    } else {
        None
    }
}

/// Who the client says it is.
#[derive(Debug, Default)]
pub struct ClientInfo {
    pub name: String,
    pub version: String,
}

/// A value derived from a document, with the content hash of the text that it was
/// derived from.
pub struct CacheEntry<T> {
    pub content_hash: u64,
    pub value: T,
}

/// What a `State` holds, by plain values. Documents are named by their URI.
#[verifier::reject_recursive_types(T)]
pub struct StateView<T> {
    /// The text of each open document.
    pub documents: Map<Seq<char>, Seq<char>>,
    /// The language of each document that was opened with one.
    pub language_ids: Map<Seq<char>, Seq<char>>,
    /// The derived value kept for each document, if any.
    pub color_cache: Map<Seq<char>, CacheEntry<T>>,
    /// The listed actions that wait for their resolution, by title.
    pub action_cache: Map<Seq<char>, ActionDataView>,
    /// The root of the workspace.
    pub root: Seq<char>,
    /// The name and the version of the client.
    pub client_info: (Seq<char>, Seq<char>),
}

impl<T> StateView<T> {
    /// The content hash of a document, if it is open.
    pub open spec fn content_hash(self, uri: Seq<char>) -> Option<u64> {
        if self.documents.contains_key(uri) {
            Some(text_digest(self.documents[uri]))
        } else {
            None
        }
    }

    /// The cached value of a document, as far as it was derived from a text with
    /// the content hash `current_hash`.
    pub open spec fn get_or_none(self, uri: Seq<char>, current_hash: u64) -> Option<T> {
        if self.color_cache.contains_key(uri) && self.color_cache[uri].content_hash
            == current_hash {
            Some(self.color_cache[uri].value)
        } else {
            None
        }
    }

    /// The cached value of a document, as far as it was derived from the text that
    /// the document has now.
    pub open spec fn color(self, uri: Seq<char>) -> Option<T> {
        match self.content_hash(uri) {
            Some(current_hash) => self.get_or_none(uri, current_hash),
            None => None,
        }
    }

    /// The state after `value` was recorded for an open document under the hash
    /// `hash`. Nothing is recorded for a document that is not open.
    pub open spec fn set(self, uri: Seq<char>, hash: u64, value: T) -> StateView<T> {
        if self.documents.contains_key(uri) {
            StateView {
                color_cache: self.color_cache.insert(
                    uri,
                    CacheEntry { content_hash: hash, value },
                ),
                ..self
            }
        } else {
            self
        }
    }

    /// The state after `value` was recorded for an open document under its current
    /// content hash. Nothing is recorded for a document that is not open.
    pub open spec fn set_color(self, uri: Seq<char>, value: T) -> StateView<T> {
        match self.content_hash(uri) {
            Some(current_hash) => self.set(uri, current_hash, value),
            None => self,
        }
    }

    /// The state after the cached value of a document was dropped.
    pub open spec fn clear_color(self, uri: Seq<char>) -> StateView<T> {
        StateView { color_cache: self.color_cache.remove(uri), ..self }
    }

    /// The state after a document was opened: it holds `text`, and nothing is
    /// cached for it. A language that comes with it replaces the one on record.
    pub open spec fn on_document_open(
        self,
        uri: Seq<char>,
        text: Seq<char>,
        language_id: Option<Seq<char>>,
    ) -> StateView<T> {
        StateView {
            documents: self.documents.insert(uri, text),
            language_ids: match language_id {
                Some(id) => self.language_ids.insert(uri, id),
                None => self.language_ids,
            },
            color_cache: self.color_cache.remove(uri),
            ..self
        }
    }

    /// The state after an open document was saved with `text`. A document that is
    /// not open leaves the state as it is.
    pub open spec fn on_document_save(self, uri: Seq<char>, text: Seq<char>) -> StateView<T> {
        if self.documents.contains_key(uri) {
            StateView {
                documents: self.documents.insert(uri, text),
                color_cache: self.color_cache.remove(uri),
                ..self
            }
        } else {
            self
        }
    }

    /// The state after a batch of changes to an open document: its text is what
    /// the batch left, and nothing is cached for it. A document that is not open
    /// leaves the state as it is.
    pub open spec fn on_document_change(
        self,
        uri: Seq<char>,
        changes: Seq<ChangeEvent>,
        enc: OffsetEncoding,
    ) -> StateView<T> {
        if self.documents.contains_key(uri) {
            StateView {
                documents: self.documents.insert(
                    uri,
                    apply_changes(self.documents[uri], changes, enc).0,
                ),
                color_cache: self.color_cache.remove(uri),
                ..self
            }
        } else {
            self
        }
    }

    /// The state after a document was closed: its text, its language and what was
    /// cached for it are gone, and no listed action waits any more.
    pub open spec fn clean(self, uri: Seq<char>) -> StateView<T> {
        StateView {
            documents: self.documents.remove(uri),
            language_ids: self.language_ids.remove(uri),
            color_cache: self.color_cache.remove(uri),
            action_cache: Map::empty(),
            ..self
        }
    }

    /// Nothing is cached for a document that is not open.
    pub open spec fn well_formed(self) -> bool {
        forall|uri: Seq<char>| #[trigger]
            self.color_cache.contains_key(uri) ==> self.documents.contains_key(uri)
    }

    /// The language of a document, or an empty one where none is on record.
    pub open spec fn language_id(self, uri: Seq<char>) -> Seq<char> {
        if self.language_ids.contains_key(uri) {
            self.language_ids[uri]
        } else {
            Seq::empty()
        }
    }
}

/// The documents that are open, with what is cached for them.
#[verifier::reject_recursive_types(T)]
pub struct State<T> {
    root: String,
    client_info: ClientInfo,
    documents: StringHashMap<Document>,
    language_ids: StringHashMap<String>,
    color_cache: StringHashMap<CacheEntry<T>>,
    action_cache: StringHashMap<ActionData>,
}

impl<T> View for State<T> {
    type V = StateView<T>;

    closed spec fn view(&self) -> StateView<T> {
        StateView {
            documents: self.documents@.map_values(|doc: Document| doc.text()),
            language_ids: self.language_ids@.map_values(|id: String| id@),
            color_cache: self.color_cache@,
            action_cache: self.action_cache@.map_values(|data: ActionData| data@),
            root: self.root@,
            client_info: (self.client_info.name@, self.client_info.version@),
        }
    }
}

impl<T> State<T> {
    /// Nothing is cached for a document that is not open.
    #[verifier::type_invariant]
    spec fn cache_follows_documents(self) -> bool {
        forall|uri: Seq<char>| #[trigger]
            self.color_cache@.contains_key(uri) ==> self.documents@.contains_key(uri)
    }

    /// Puts a document under its name and drops what is cached for it.
    fn put_document(&mut self, uri: &str, doc: Document)
        ensures
            final(self).documents@ == old(self).documents@.insert(uri@, doc),
            final(self).color_cache@ == old(self).color_cache@.remove(uri@),
            final(self).language_ids == old(self).language_ids,
            final(self).action_cache == old(self).action_cache,
            final(self).root == old(self).root,
            final(self).client_info == old(self).client_info,
    {
        proof {
            use_type_invariant(&*self);
        }
        let mut cache: StringHashMap<CacheEntry<T>> = StringHashMap::new();
        std::mem::swap(&mut self.color_cache, &mut cache);
        let mut documents: StringHashMap<Document> = StringHashMap::new();
        std::mem::swap(&mut self.documents, &mut documents);
        cache.remove(uri);
        documents.insert(uri.to_owned(), doc);
        std::mem::swap(&mut self.documents, &mut documents);
        std::mem::swap(&mut self.color_cache, &mut cache);
    }

    /// Takes a document away, with what is cached for it.
    fn remove_document(&mut self, uri: &str)
        ensures
            final(self).documents@ == old(self).documents@.remove(uri@),
            final(self).color_cache@ == old(self).color_cache@.remove(uri@),
            final(self).language_ids == old(self).language_ids,
            final(self).action_cache == old(self).action_cache,
            final(self).root == old(self).root,
            final(self).client_info == old(self).client_info,
    {
        proof {
            use_type_invariant(&*self);
        }
        let mut cache: StringHashMap<CacheEntry<T>> = StringHashMap::new();
        std::mem::swap(&mut self.color_cache, &mut cache);
        let mut documents: StringHashMap<Document> = StringHashMap::new();
        std::mem::swap(&mut self.documents, &mut documents);
        cache.remove(uri);
        documents.remove(uri);
        std::mem::swap(&mut self.documents, &mut documents);
        std::mem::swap(&mut self.color_cache, &mut cache);
    }

    /// Changes what is cached: an entry for an open document comes in, or the
    /// entry of a document goes.
    fn put_cached(&mut self, uri: &str, entry: Option<CacheEntry<T>>)
        requires
            entry is Some ==> old(self).documents@.contains_key(uri@),
        ensures
            final(self).color_cache@ == match entry {
                Some(e) => old(self).color_cache@.insert(uri@, e),
                None => old(self).color_cache@.remove(uri@),
            },
            final(self).documents == old(self).documents,
            final(self).language_ids == old(self).language_ids,
            final(self).action_cache == old(self).action_cache,
            final(self).root == old(self).root,
            final(self).client_info == old(self).client_info,
    {
        proof {
            use_type_invariant(&*self);
        }
        let mut cache: StringHashMap<CacheEntry<T>> = StringHashMap::new();
        std::mem::swap(&mut self.color_cache, &mut cache);
        match entry {
            Some(e) => {
                cache.insert(uri.to_owned(), e);
            },
            None => {
                cache.remove(uri);
            },
        }
        std::mem::swap(&mut self.color_cache, &mut cache);
    }

    /// Changes the language on record for a document.
    fn put_language(&mut self, uri: &str, language_id: Option<String>)
        ensures
            final(self).language_ids@ == match language_id {
                Some(id) => old(self).language_ids@.insert(uri@, id),
                None => old(self).language_ids@.remove(uri@),
            },
            final(self).documents == old(self).documents,
            final(self).color_cache == old(self).color_cache,
            final(self).action_cache == old(self).action_cache,
            final(self).root == old(self).root,
            final(self).client_info == old(self).client_info,
    {
        proof {
            use_type_invariant(&*self);
        }
        let mut languages: StringHashMap<String> = StringHashMap::new();
        std::mem::swap(&mut self.language_ids, &mut languages);
        match language_id {
            Some(id) => {
                languages.insert(uri.to_owned(), id);
            },
            None => {
                languages.remove(uri);
            },
        }
        std::mem::swap(&mut self.language_ids, &mut languages);
    }

    /// Changes the listed actions: one comes in under its title, or all go.
    fn put_action(&mut self, action: Option<(String, ActionData)>)
        ensures
            final(self).action_cache@ == match action {
                Some((name, data)) => old(self).action_cache@.insert(name@, data),
                None => Map::empty(),
            },
            final(self).documents == old(self).documents,
            final(self).color_cache == old(self).color_cache,
            final(self).language_ids == old(self).language_ids,
            final(self).root == old(self).root,
            final(self).client_info == old(self).client_info,
    {
        proof {
            use_type_invariant(&*self);
        }
        let mut actions: StringHashMap<ActionData> = StringHashMap::new();
        std::mem::swap(&mut self.action_cache, &mut actions);
        match action {
            Some((name, data)) => {
                actions.insert(name, data);
            },
            None => {
                actions.clear();
            },
        }
        std::mem::swap(&mut self.action_cache, &mut actions);
    }

    /// A state without documents.
    pub fn new() -> (state: State<T>)
        ensures
            state@.documents == Map::<Seq<char>, Seq<char>>::empty(),
            state@.language_ids == Map::<Seq<char>, Seq<char>>::empty(),
            state@.color_cache == Map::<Seq<char>, CacheEntry<T>>::empty(),
            state@.action_cache == Map::<Seq<char>, ActionDataView>::empty(),
            state@.root == Seq::<char>::empty(),
            state@.client_info == (Seq::<char>::empty(), Seq::<char>::empty()),
    {
        let state = State {
            root: String::new(),
            client_info: ClientInfo { name: String::new(), version: String::new() },
            documents: StringHashMap::new(),
            language_ids: StringHashMap::new(),
            color_cache: StringHashMap::new(),
            action_cache: StringHashMap::new(),
        };
        assert(state@.documents =~= Map::<Seq<char>, Seq<char>>::empty());
        assert(state@.language_ids =~= Map::<Seq<char>, Seq<char>>::empty());
        assert(state@.action_cache =~= Map::<Seq<char>, ActionDataView>::empty());
        state
    }

    /// The text of a document, or an empty text for a document that is not open.
    pub fn get_document(&self, uri: &str) -> (text: ropey::Rope)
        ensures
            rope_text(text) == if self@.documents.contains_key(uri@) {
                self@.documents[uri@]
            } else {
                Seq::<char>::empty()
            },
    {
        proof {
            reveal_strlit("");
        }
        match self.documents.get(uri) {
            Some(doc) => rope_clone(doc.rope()),
            None => rope_from_str(""),
        }
    }

    /// The language of a document, or an empty one where none is on record.
    pub fn get_language_id(&self, uri: &str) -> (language_id: String)
        ensures
            language_id@ == self@.language_id(uri@),
    {
        match self.language_ids.get(uri) {
            Some(id) => id.clone(),
            None => String::new(),
        }
    }

    /// The content hash of a document, if it is open.
    pub fn get_hash(&self, uri: &str) -> (digest: Option<u64>)
        ensures
            digest == self@.content_hash(uri@),
    {
        match self.documents.get(uri) {
            Some(doc) => Some(doc.content_hash()),
            None => None,
        }
    }

    /// Opens a document, or opens it anew.
    pub fn on_document_open(&mut self, uri: &str, content: ropey::Rope, language_id: Option<String>)
        ensures
            final(self)@ == old(self)@.on_document_open(
                uri@,
                rope_text(content),
                match language_id {
                    Some(id) => Some(id@),
                    None => None,
                },
            ),
    {
        if let Some(id) = language_id {
            self.put_language(uri, Some(id));
        }
        self.put_document(uri, Document::new(content));
        assert(final(self)@.documents =~= old(self)@.on_document_open(
            uri@,
            rope_text(content),
            match language_id {
                Some(id) => Some(id@),
                None => None,
            },
        ).documents);
        assert(final(self)@.language_ids =~= old(self)@.on_document_open(
            uri@,
            rope_text(content),
            match language_id {
                Some(id) => Some(id@),
                None => None,
            },
        ).language_ids);
    }

    /// Replaces the text of an open document with what was saved. A document that
    /// is not open is reported as unknown, and nothing changes.
    pub fn on_document_save(&mut self, uri: &str, content: ropey::Rope) -> (r: Result<(), Error>)
        ensures
            final(self)@ == old(self)@.on_document_save(uri@, rope_text(content)),
            r == if old(self)@.documents.contains_key(uri@) {
                Ok::<(), Error>(())
            } else {
                Err::<(), Error>(Error::UnknownDocument)
            },
    {
        if !self.documents.contains_key(uri) {
            return Err(Error::UnknownDocument);
        }
        self.put_document(uri, Document::new(content));
        assert(final(self)@.documents =~= old(self)@.on_document_save(
            uri@,
            rope_text(content),
        ).documents);
        Ok(())
    }

    /// Applies one batch of changes to an open document, in the order of delivery.
    /// The batch ends at the first change that fails: its error is returned, and
    /// the changes before it stay applied. A document that is not open is reported
    /// as unknown, and nothing changes.
    pub fn on_document_change(
        &mut self,
        uri: &str,
        contents: Vec<ChangeEvent>,
        offset_encoding: OffsetEncoding,
    ) -> (r: Result<(), Error>)
        ensures
            final(self)@ == old(self)@.on_document_change(uri@, contents@, offset_encoding),
            r == if !old(self)@.documents.contains_key(uri@) {
                Err::<(), Error>(Error::UnknownDocument)
            } else {
                match apply_changes(old(self)@.documents[uri@], contents@, offset_encoding).1 {
                    None => Ok::<(), Error>(()),
                    Some(e) => Err::<(), Error>(e),
                }
            },
    {
        let mut text = match self.documents.get(uri) {
            Some(doc) => rope_clone(doc.rope()),
            None => {
                return Err(Error::UnknownDocument);
            },
        };
        let r = apply_content_changes(&mut text, &contents, offset_encoding);
        self.put_document(uri, Document::new(text));
        assert(final(self)@.documents =~= old(self)@.on_document_change(
            uri@,
            contents@,
            offset_encoding,
        ).documents);
        r
    }

    /// Closes a document.
    pub fn clean(&mut self, uri: &str)
        ensures
            final(self)@ == old(self)@.clean(uri@),
    {
        self.remove_document(uri);
        self.put_language(uri, None);
        self.put_action(None);
        assert(final(self)@.documents =~= old(self)@.clean(uri@).documents);
        assert(final(self)@.language_ids =~= old(self)@.clean(uri@).language_ids);
        assert(final(self)@.action_cache =~= old(self)@.clean(uri@).action_cache);
    }

    pub fn set_client_info(&mut self, name: String, version: String)
        ensures
            final(self)@ == (StateView { client_info: (name@, version@), ..old(self)@ }),
    {
        proof {
            use_type_invariant(&*self);
        }
        self.client_info = ClientInfo { name, version };
    }

    pub fn client_info(&self) -> (info: &ClientInfo)
        ensures
            (info.name@, info.version@) == self@.client_info,
    {
        &self.client_info
    }

    pub fn set_root(&mut self, root: String)
        ensures
            final(self)@ == (StateView { root: root@, ..old(self)@ }),
    {
        proof {
            use_type_invariant(&*self);
        }
        self.root = root;
    }

    pub fn root(&self) -> (root: &String)
        ensures
            root@ == self@.root,
    {
        &self.root
    }

    /// The listed action with the title `name`, if one waits for its resolution.
    pub fn get_action(&self, name: String) -> (data: Option<ActionData>)
        ensures
            match data {
                Some(d) => self@.action_cache.contains_key(name@) && d@
                    == self@.action_cache[name@],
                None => !self@.action_cache.contains_key(name@),
            },
    {
        match self.action_cache.get(name.as_str()) {
            Some(data) => Some(data.clone()),
            None => None,
        }
    }

    /// Records a listed action under its title. It takes the place of an action
    /// that was listed with the same title before.
    pub fn set_action(&mut self, name: String, data: ActionData)
        ensures
            final(self)@ == (StateView {
                action_cache: old(self)@.action_cache.insert(name@, data@),
                ..old(self)@
            }),
    {
        self.put_action(Some((name, data)));
        assert(final(self)@.action_cache =~= old(self)@.action_cache.insert(name@, data@));
    }

    /// Forgets every listed action.
    pub fn clear_action(&mut self)
        ensures
            final(self)@ == (StateView { action_cache: Map::empty(), ..old(self)@ }),
    {
        self.put_action(None);
        assert(final(self)@.action_cache =~= Map::<Seq<char>, ActionDataView>::empty());
    }

    /// Says what a command of the client asks to load anew. Any other command is
    /// refused as unsupported.
    pub fn execute_command(&self, command: &str) -> (r: Result<Reload, Error>)
        ensures
            match command_reload(command@) {
                Some(reload) => r == Ok::<Reload, Error>(reload),
                None => r matches Err(Error::UnsupportedLspRequest { request }) && request@
                    == command@,
            },
    {
        if str_eq(command, "reload actions") {
            Ok(Reload::Actions)
        } else if str_eq(command, "reload snippets") {
            Ok(Reload::Snippets)
        } else {
            Err(Error::UnsupportedLspRequest { request: command.to_owned() })
        }
    }

    /// The value cached for a document, if it was recorded under the hash
    /// `current_hash`.
    pub fn get_or_none(&self, uri: &str, current_hash: u64) -> (value: Option<&T>)
        ensures
            match self@.get_or_none(uri@, current_hash) {
                Some(v) => value matches Some(found) && *found == v,
                None => value is None,
            },
    {
        match self.color_cache.get(uri) {
            Some(entry) => if entry.content_hash == current_hash {
                Some(&entry.value)
            } else {
                None
            },
            None => None,
        }
    }

    /// Records a value for an open document under the hash `hash`. A document that
    /// is not open is reported as unknown, and nothing is recorded.
    pub fn set(&mut self, uri: &str, hash: u64, value: T) -> (r: Result<(), Error>)
        ensures
            final(self)@ == old(self)@.set(uri@, hash, value),
            r == if old(self)@.documents.contains_key(uri@) {
                Ok::<(), Error>(())
            } else {
                Err::<(), Error>(Error::UnknownDocument)
            },
    {
        if !self.documents.contains_key(uri) {
            return Err(Error::UnknownDocument);
        }
        self.put_cached(uri, Some(CacheEntry { content_hash: hash, value }));
        Ok(())
    }

    /// The value cached for a document, if it was derived from the text that the
    /// document has now.
    pub fn get_color(&self, uri: &str) -> (value: Option<&T>)
        ensures
            match self@.color(uri@) {
                Some(v) => value matches Some(found) && *found == v,
                None => value is None,
            },
    {
        match self.get_hash(uri) {
            Some(current_hash) => self.get_or_none(uri, current_hash),
            None => None,
        }
    }

    /// Records a value derived from the text that an open document has now. A
    /// document that is not open is reported as unknown, and nothing is recorded.
    pub fn set_color(&mut self, uri: &str, colors: T) -> (r: Result<(), Error>)
        ensures
            final(self)@ == old(self)@.set_color(uri@, colors),
            r == if old(self)@.documents.contains_key(uri@) {
                Ok::<(), Error>(())
            } else {
                Err::<(), Error>(Error::UnknownDocument)
            },
    {
        match self.get_hash(uri) {
            Some(current_hash) => self.set(uri, current_hash, colors),
            None => Err(Error::UnknownDocument),
        }
    }

    /// Drops what is cached for a document.
    pub fn clear_color(&mut self, uri: &str)
        ensures
            final(self)@ == old(self)@.clear_color(uri@),
    {
        self.put_cached(uri, None);
    }

    /// Brings to mind what holds of every state: nothing is cached for a document
    /// that is not open. It does nothing when it runs.
    pub fn recall_well_formed(&self)
        ensures
            self@.well_formed(),
    {
        proof {
            use_type_invariant(self);
        }
    }
}

/// A batch without changes leaves the text of every document, and so its content
/// hash, as it was.
pub proof fn lemma_empty_batch_keeps_text_and_hash<T>(
    state: StateView<T>,
    uri: Seq<char>,
    enc: OffsetEncoding,
)
    ensures
        state.on_document_change(uri, Seq::<ChangeEvent>::empty(), enc).documents
            == state.documents,
        forall|other: Seq<char>|
            state.on_document_change(uri, Seq::<ChangeEvent>::empty(), enc).content_hash(other)
                == state.content_hash(other),
{
    let after = state.on_document_change(uri, Seq::<ChangeEvent>::empty(), enc);
    assert(after.documents =~= state.documents);
}

/// A lookup finds a value only under the hash that the latest `set` for the
/// document recorded, and then it finds the value of that `set`. A `set` for
/// another document does not change what a lookup finds.
pub proof fn lemma_lookup_after_set<T>(
    state: StateView<T>,
    uri: Seq<char>,
    hash: u64,
    value: T,
    asked: u64,
    other: Seq<char>,
)
    requires
        state.documents.contains_key(uri),
        other != uri,
    ensures
        state.set(uri, hash, value).get_or_none(uri, asked) == if asked == hash {
            Some(value)
        } else {
            None
        },
        state.set(uri, hash, value).get_or_none(other, asked) == state.get_or_none(other, asked),
        state.get_or_none(uri, asked) is Some ==> asked == state.color_cache[uri].content_hash,
{
}

/// After a document was opened, changed, saved or closed, and before the next
/// `set` for it, a lookup finds nothing for it, whatever hash is asked for.
pub proof fn lemma_lookup_after_mutation<T>(
    state: StateView<T>,
    uri: Seq<char>,
    text: Seq<char>,
    language_id: Option<Seq<char>>,
    changes: Seq<ChangeEvent>,
    enc: OffsetEncoding,
    asked: u64,
)
    requires
        state.well_formed(),
    ensures
        state.on_document_open(uri, text, language_id).get_or_none(uri, asked) is None,
        state.on_document_change(uri, changes, enc).get_or_none(uri, asked) is None,
        state.on_document_save(uri, text).get_or_none(uri, asked) is None,
        state.clean(uri).get_or_none(uri, asked) is None,
        state.on_document_open(uri, text, language_id).color(uri) is None,
        state.on_document_change(uri, changes, enc).color(uri) is None,
        state.on_document_save(uri, text).color(uri) is None,
        state.clean(uri).color(uri) is None,
{
}

/// No step lets a cached value outlive its document.
pub proof fn lemma_steps_keep_well_formed<T>(
    state: StateView<T>,
    uri: Seq<char>,
    text: Seq<char>,
    language_id: Option<Seq<char>>,
    changes: Seq<ChangeEvent>,
    enc: OffsetEncoding,
    hash: u64,
    value: T,
)
    requires
        state.well_formed(),
    ensures
        state.on_document_open(uri, text, language_id).well_formed(),
        state.on_document_change(uri, changes, enc).well_formed(),
        state.on_document_save(uri, text).well_formed(),
        state.clean(uri).well_formed(),
        state.set(uri, hash, value).well_formed(),
        state.set_color(uri, value).well_formed(),
        state.clear_color(uri).well_formed(),
{
}

/// A change to a document that was closed leaves the state as closing left it.
pub proof fn lemma_change_after_close<T>(
    state: StateView<T>,
    uri: Seq<char>,
    changes: Seq<ChangeEvent>,
    enc: OffsetEncoding,
)
    ensures
        state.clean(uri).on_document_change(uri, changes, enc) == state.clean(uri),
{
}

} // verus!
