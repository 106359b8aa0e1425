use vstd::prelude::*;
use vstd::string::*;

verus! {

/// What a catalog entry is, as plain sequences of characters.
pub struct ModelDescriptor {
    pub id: Seq<char>,
    pub name: Seq<char>,
    pub size_mb: u32,
    pub description: Seq<char>,
    pub url: Seq<char>,
    pub filename: Seq<char>,
    pub recommended_for: Seq<Seq<char>>,
}

/// An immutable entry of the speech-recognition model catalog.
#[derive(Clone, Debug, PartialEq, Eq)]
pub struct WhisperModelInfo {
    pub id: String,
    pub name: String,
    pub size_mb: u32,
    pub description: String,
    pub url: String,
    pub filename: String,
    pub recommended_for: Vec<String>,
}

pub open spec fn tags_view(tags: Seq<String>) -> Seq<Seq<char>> {
    tags.map_values(|t: String| t@)
}

impl View for WhisperModelInfo {
    type V = ModelDescriptor;

    open spec fn view(&self) -> ModelDescriptor {
        ModelDescriptor {
            id: self.id@,
            name: self.name@,
            size_mb: self.size_mb,
            description: self.description@,
            url: self.url@,
            filename: self.filename@,
            recommended_for: tags_view(self.recommended_for@),
        }
    }
}

pub open spec fn descriptor(
    id: &str,
    name: &str,
    size_mb: u32,
    description: &str,
    url: &str,
    filename: &str,
    tags: Seq<Seq<char>>,
) -> ModelDescriptor {
    ModelDescriptor {
        id: id@,
        name: name@,
        size_mb,
        description: description@,
        url: url@,
        filename: filename@,
        recommended_for: tags,
    }
}

/// The catalog, in the order in which it is listed.
pub open spec fn catalog() -> Seq<ModelDescriptor> {
    seq![
        descriptor(
            "large-v3-turbo-q8_0",
            "Large v3 Turbo Q8",
            809,
            "Best quality and performance",
            "https://huggingface.co/ggerganov/whisper.cpp/resolve/main/ggml-large-v3-turbo-q8_0.bin",
            "ggml-large-v3-turbo-q8_0.bin",
            seq!["accuracy"@, "performance"@],
        ),
        descriptor(
            "large-v3-turbo-q5_0",
            "Large v3 Turbo Q5",
            540,
            "Good quality for slower machines",
            "https://huggingface.co/ggerganov/whisper.cpp/resolve/main/ggml-large-v3-turbo-q5_0.bin",
            "ggml-large-v3-turbo-q5_0.bin",
            seq!["slower_machines"@],
        ),
        descriptor(
            "distil-large-v3.5-q8_0",
            "Distil-Large v3.5 Q8",
            1520,
            "4-6× faster than Large-v3 with near-equal accuracy",
            "https://huggingface.co/distil-whisper/distil-large-v3.5-ggml/resolve/main/ggml-model.bin",
            "ggml-model.bin",
            seq!["accuracy"@, "speed"@],
        ),
    ]
}

/// Index of the first catalog entry at or after `from` whose id is `id`.
pub open spec fn first_match(entries: Seq<ModelDescriptor>, id: Seq<char>, from: int) -> Option<int>
    decreases entries.len() - from,
{
    if from < 0 || from >= entries.len() {
        None
    } else if entries[from].id == id {
        Some(from)
    } else {
        first_match(entries, id, from + 1)
    }
}

/// The catalog entry with the given id, if there is one.
pub open spec fn lookup(id: Seq<char>) -> Option<ModelDescriptor> {
    match first_match(catalog(), id, 0) {
        Some(i) => Some(catalog()[i]),
        None => None,
    }
}

fn text(s: &str) -> (r: String)
    ensures
        r@ == s@,
{
    String::from_str(s)
}

fn make_entry(
    id: &str,
    name: &str,
    size_mb: u32,
    description: &str,
    url: &str,
    filename: &str,
    tags: Vec<String>,
) -> (r: WhisperModelInfo)
    ensures
        r@ == descriptor(id, name, size_mb, description, url, filename, tags_view(tags@)),
{
    WhisperModelInfo {
        id: text(id),
        name: text(name),
        size_mb,
        description: text(description),
        url: text(url),
        filename: text(filename),
        recommended_for: tags,
    }
}

impl WhisperModelInfo {
    /// Every model of the catalog, in catalog order.
    pub fn all() -> (r: Vec<WhisperModelInfo>)
        ensures
            r@.len() == catalog().len(),
            forall|i: int| 0 <= i < r@.len() ==> #[trigger] r@[i]@ == catalog()[i],
    {
        let mut r: Vec<WhisperModelInfo> = Vec::new();
        let t0 = vec![text("accuracy"), text("performance")];
        assert(tags_view(t0@) =~= seq!["accuracy"@, "performance"@]);
        r.push(
            make_entry(
                "large-v3-turbo-q8_0",
                "Large v3 Turbo Q8",
                809,
                "Best quality and performance",
                "https://huggingface.co/ggerganov/whisper.cpp/resolve/main/ggml-large-v3-turbo-q8_0.bin",
                "ggml-large-v3-turbo-q8_0.bin",
                t0,
            ),
        );
        let t1 = vec![text("slower_machines")];
        assert(tags_view(t1@) =~= seq!["slower_machines"@]);
        r.push(
            make_entry(
                "large-v3-turbo-q5_0",
                "Large v3 Turbo Q5",
                540,
                "Good quality for slower machines",
                "https://huggingface.co/ggerganov/whisper.cpp/resolve/main/ggml-large-v3-turbo-q5_0.bin",
                "ggml-large-v3-turbo-q5_0.bin",
                t1,
            ),
        );
        let t2 = vec![text("accuracy"), text("speed")];
        assert(tags_view(t2@) =~= seq!["accuracy"@, "speed"@]);
        r.push(
            make_entry(
                "distil-large-v3.5-q8_0",
                "Distil-Large v3.5 Q8",
                1520,
                "4-6× faster than Large-v3 with near-equal accuracy",
                "https://huggingface.co/distil-whisper/distil-large-v3.5-ggml/resolve/main/ggml-model.bin",
                "ggml-model.bin",
                t2,
            ),
        );
        r
    }

    /// The catalog entry whose id is `id`, or `None` when the catalog has none.
    pub fn get_by_id(id: &str) -> (r: Option<WhisperModelInfo>)
        ensures
            match r {
                Some(m) => lookup(id@) == Some(m@),
                None => lookup(id@).is_none(),
            },
    {
        let key = id.to_owned();
        let mut entries = WhisperModelInfo::all();
        let n = entries.len();
        let mut i: usize = 0;
        while i < n
            invariant
                n == catalog().len(),
                entries@.len() == n,
                0 <= i <= n,
                key@ == id@,
                forall|j: int| 0 <= j < n ==> #[trigger] entries@[j]@ == catalog()[j],
                first_match(catalog(), id@, 0) == first_match(catalog(), id@, i as int),
            decreases n - i,
        {
            let found = entries[i].id == key;
            assert(entries@[i as int]@ == catalog()[i as int]);
            assert(found == (entries@[i as int].id@ == key@));
            if found {
                let m = entries.swap_remove(i);
                return Some(m);
            }
            assert(catalog()[i as int].id != id@);
            assert(first_match(catalog(), id@, i as int) == first_match(catalog(), id@, i + 1));
            i = i + 1;
        }
        None
    }
}

} // verus!
