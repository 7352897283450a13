use vstd::prelude::*;

verus! {

/// An input to the target: an immutable-by-value sequence of bytes.
#[derive(Clone, Debug)]
pub struct BytesInput {
    pub bytes: Vec<u8>,
}

impl View for BytesInput {
    type V = Seq<u8>;

    open spec fn view(&self) -> Seq<u8> {
        self.bytes@
    }
}

impl BytesInput {
    pub fn new(bytes: Vec<u8>) -> (r: Self)
        ensures
            r@ == bytes@,
    {
        BytesInput { bytes }
    }

    /// The bytes handed to the target.
    pub fn target_bytes(&self) -> (r: &Vec<u8>)
        ensures
            r@ == self@,
    {
        &self.bytes
    }

    pub fn len(&self) -> (r: usize)
        ensures
            r == self@.len(),
    {
        self.bytes.len()
    }

    pub fn byte_at(&self, i: usize) -> (r: u8)
        requires
            i < self@.len(),
        ensures
            r == self@[i as int],
    {
        self.bytes[i]
    }

    pub fn set_byte(&mut self, i: usize, b: u8)
        requires
            i < old(self)@.len(),
        ensures
            final(self)@ == old(self)@.update(i as int, b),
    {
        self.bytes[i] = b;
    }

    pub fn push_byte(&mut self, b: u8)
        ensures
            final(self)@ == old(self)@.push(b),
    {
        self.bytes.push(b);
    }

    pub fn remove_byte(&mut self, i: usize) -> (r: u8)
        requires
            i < old(self)@.len(),
        ensures
            r == old(self)@[i as int],
            final(self)@ == old(self)@.remove(i as int),
    {
        self.bytes.remove(i)
    }

    pub fn insert_byte(&mut self, i: usize, b: u8)
        requires
            i <= old(self)@.len(),
            old(self)@.len() < usize::MAX,
        ensures
            final(self)@ == old(self)@.insert(i as int, b),
    {
        self.bytes.insert(i, b);
    }

    /// The on-disk form of an input: exactly its bytes.
    pub fn to_file_bytes(&self) -> (r: Vec<u8>)
        ensures
            r@ == self@,
    {
        self.bytes.clone()
    }

    /// Reads an input back from its on-disk form.
    pub fn from_file_bytes(bytes: Vec<u8>) -> (r: Self)
        ensures
            r@ == bytes@,
    {
        BytesInput { bytes }
    }
}

/// The on-disk round trip of an input is the identity on file contents:
/// an input loaded from a file (`from_file_bytes`, whose contract makes the
/// loaded view equal the file) and then re-serialized (`to_file_bytes`,
/// whose contract makes the written bytes equal the input's view) yields
/// byte-identical file contents.
pub proof fn lemma_input_file_round_trip(file: Seq<u8>, loaded: BytesInput, rewritten: Seq<u8>)
    requires
        loaded@ == file,
        rewritten == loaded@,
    ensures
        rewritten == file,
{
}

/// A dictionary of byte sequences ("tokens") known to be meaningful to the
/// target; the token-splice mutation operator draws from it.
#[derive(Clone, Debug)]
pub struct Tokens {
    pub tokens: Vec<Vec<u8>>,
}

impl View for Tokens {
    type V = Seq<Seq<u8>>;

    open spec fn view(&self) -> Seq<Seq<u8>> {
        self.tokens@.map_values(|t: Vec<u8>| t@)
    }
}

impl Tokens {
    pub fn new(tokens: Vec<Vec<u8>>) -> (r: Self)
        ensures
            r@ == tokens@.map_values(|t: Vec<u8>| t@),
    {
        Tokens { tokens }
    }

    pub fn count(&self) -> (r: usize)
        ensures
            r == self@.len(),
    {
        self.tokens.len()
    }

    pub fn token_at(&self, i: usize) -> (r: &Vec<u8>)
        requires
            i < self@.len(),
        ensures
            r@ == self@[i as int],
    {
        &self.tokens[i]
    }

    pub fn add_token(&mut self, token: Vec<u8>)
        ensures
            final(self)@ == old(self)@.push(token@),
    {
        self.tokens.push(token);
    }
}

/// The dictionary a PNG target is seeded with: the file header and the
/// four chunk names.
pub fn png_dictionary() -> (r: Tokens)
    ensures
        r@.len() == 5,
        r@[0] == seq![137u8, 80u8, 78u8, 71u8, 13u8, 10u8, 26u8, 10u8],
        r@[1] == seq![73u8, 72u8, 68u8, 82u8],
        r@[2] == seq![73u8, 68u8, 65u8, 84u8],
        r@[3] == seq![80u8, 76u8, 84u8, 69u8],
        r@[4] == seq![73u8, 69u8, 78u8, 68u8],
{
    let mut tokens: Vec<Vec<u8>> = Vec::new();
    let mut header: Vec<u8> = Vec::new();
    header.push(137);
    header.push(80);
    header.push(78);
    header.push(71);
    header.push(13);
    header.push(10);
    header.push(26);
    header.push(10);
    proof {
        assert(header@ =~= seq![137u8, 80u8, 78u8, 71u8, 13u8, 10u8, 26u8, 10u8]);
    }
    tokens.push(header);
    tokens.push(chunk_name(73, 72, 68, 82));
    tokens.push(chunk_name(73, 68, 65, 84));
    tokens.push(chunk_name(80, 76, 84, 69));
    tokens.push(chunk_name(73, 69, 78, 68));
    let r = Tokens::new(tokens);
    proof {
        assert(r@[0] =~= seq![137u8, 80u8, 78u8, 71u8, 13u8, 10u8, 26u8, 10u8]);
        assert(r@[1] =~= seq![73u8, 72u8, 68u8, 82u8]);
        assert(r@[2] =~= seq![73u8, 68u8, 65u8, 84u8]);
        assert(r@[3] =~= seq![80u8, 76u8, 84u8, 69u8]);
        assert(r@[4] =~= seq![73u8, 69u8, 78u8, 68u8]);
    }
    r
}

/// A four-byte chunk name.
fn chunk_name(a: u8, b: u8, c: u8, d: u8) -> (r: Vec<u8>)
    ensures
        r@ == seq![a, b, c, d],
{
    let mut v: Vec<u8> = Vec::new();
    v.push(a);
    v.push(b);
    v.push(c);
    v.push(d);
    proof {
        assert(v@ =~= seq![a, b, c, d]);
    }
    v
}

} // verus!
