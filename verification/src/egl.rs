//! Graphics devices as the rendering interface lists them, by the extensions
//! they support.

use vstd::prelude::*;

verus! {

/// Why a device could not be listed or asked.
#[derive(Debug)]
pub enum Error {
    /// The display or device lacks the named extension.
    EglExtensionNotSupported(String),
    /// Listing the devices failed with the given error code.
    EnumerateDevices(u32),
}

/// A device, with the extensions it supports.
#[derive(Debug)]
pub struct EGLDevice {
    inner: usize,
    device_extensions: Vec<String>,
}

/// A device as the driver reports it: its handle, and the names of its
/// extensions in one string, separated by white space.
pub struct RawDevice {
    pub handle: usize,
    pub extensions: String,
}

/// The texts of `names`, in order.
pub open spec fn texts(names: Seq<String>) -> Seq<Seq<char>> {
    Seq::new(names.len(), |i: int| names[i]@)
}

/// White space as it separates extension names: space, tab, line feed,
/// form feed and carriage return.
pub open spec fn is_separator(c: char) -> bool {
    c == ' ' || c == '\t' || c == '\n' || c == '\x0C' || c == '\r'
}

/// The first place from `from` on in `s` that holds no separator; the
/// length of `s` if there is none.
pub open spec fn word_start(s: Seq<char>, from: int) -> int
    decreases s.len() - from,
{
    if from < 0 || from >= s.len() {
        s.len() as int
    } else if !is_separator(s[from]) {
        from
    } else {
        word_start(s, from + 1)
    }
}

/// The first place from `from` on in `s` that holds a separator; the length
/// of `s` if there is none.
pub open spec fn word_end(s: Seq<char>, from: int) -> int
    decreases s.len() - from,
{
    if from < 0 || from >= s.len() {
        s.len() as int
    } else if is_separator(s[from]) {
        from
    } else {
        word_end(s, from + 1)
    }
}

/// The words of `s` from `from` on: the longest runs without a separator,
/// in order.
pub open spec fn words_from(s: Seq<char>, from: int) -> Seq<Seq<char>>
    decreases s.len() - from,
{
    let start = word_start(s, from);
    let end = word_end(s, start);
    if from < 0 || start >= s.len() || end <= from || end > s.len() {
        Seq::empty()
    } else {
        seq![s.subrange(start, end)] + words_from(s, end)
    }
}

/// The words of `s`.
pub open spec fn words(s: Seq<char>) -> Seq<Seq<char>> {
    words_from(s, 0)
}

/// A word starts and ends within the string, no earlier than where it is
/// looked for, and is not empty.
pub proof fn lemma_word_bounds(s: Seq<char>, from: int)
    requires
        0 <= from <= s.len(),
    ensures
        from <= word_start(s, from) <= s.len(),
        from <= word_end(s, from) <= s.len(),
        word_start(s, from) < s.len() ==> !is_separator(s[word_start(s, from)]) && word_end(
            s,
            word_start(s, from),
        ) > word_start(s, from),
    decreases s.len() - from,
{
    if from < s.len() {
        lemma_word_bounds(s, from + 1);
    }
}

/// Whether one of `names` reads `name`.
pub open spec fn lists(names: Seq<Seq<char>>, name: Seq<char>) -> bool {
    names.contains(name)
}

/// The first of the three extensions that listing devices takes which a
/// display with extensions `names` lacks.
pub open spec fn missing_for_enumeration(names: Seq<Seq<char>>) -> Option<Seq<char>> {
    if !lists(names, "EGL_EXT_device_base"@) {
        Some("EGL_EXT_device_base"@)
    } else if !lists(names, "EGL_EXT_device_enumeration"@) {
        Some("EGL_EXT_device_enumeration"@)
    } else if !lists(names, "EGL_EXT_device_query"@) {
        Some("EGL_EXT_device_query"@)
    } else {
        None
    }
}

/// Whether one of `names` reads `name`.
pub fn has_extension(names: &Vec<String>, name: &str) -> (found: bool)
    ensures
        found == lists(texts(names@), name@),
{
    let wanted = String::from_str(name);
    let mut i: usize = 0;
    while i < names.len()
        invariant
            i <= names.len(),
            wanted@ == name@,
            forall|j: int| 0 <= j < i ==> (#[trigger] texts(names@)[j]) != name@,
        decreases names.len() - i,
    {
        assert(texts(names@)[i as int] == names@[i as int]@);
        if names[i] == wanted {
            return true;
        }
        i += 1;
    }
    false
}

/// Splits a string of extension names at white space.
pub fn split_extensions(raw: &str) -> (names: Vec<String>)
    ensures
        texts(names@) == words(raw@),
{
    let mut names: Vec<String> = Vec::new();
    let len = raw.unicode_len();
    let mut at: usize = 0;
    assert(texts(names@) =~= Seq::empty());
    while at < len
        invariant
            len == raw@.len(),
            at <= len,
            texts(names@) + words_from(raw@, at as int) == words(raw@),
        decreases len - at,
    {
        let ghost before = texts(names@);
        proof {
            lemma_word_bounds(raw@, at as int);
        }
        let mut start: usize = at;
        while start < len && is_separator_char(raw.get_char(start))
            invariant
                len == raw@.len(),
                at <= start <= len,
                word_start(raw@, at as int) == word_start(raw@, start as int),
            decreases len - start,
        {
            start += 1;
        }
        if start >= len {
            at = len;
            assert(words_from(raw@, len as int) =~= Seq::empty());
        } else {
            proof {
                lemma_word_bounds(raw@, start as int);
            }
            let mut end: usize = start + 1;
            while end < len && !is_separator_char(raw.get_char(end))
                invariant
                    len == raw@.len(),
                    start < end <= len,
                    word_end(raw@, start as int) == word_end(raw@, end as int),
                decreases len - end,
            {
                end += 1;
            }
            let word = String::from_str(raw.substring_char(start, end));
            names.push(word);
            proof {
                assert(texts(names@) =~= before + seq![raw@.subrange(start as int, end as int)]);
                assert(before + (seq![raw@.subrange(start as int, end as int)] + words_from(
                    raw@,
                    end as int,
                )) =~= texts(names@) + words_from(raw@, end as int));
            }
            at = end;
        }
    }
    assert(words_from(raw@, len as int) =~= Seq::empty());
    assert(texts(names@) + Seq::<Seq<char>>::empty() =~= texts(names@));
    names
}

fn is_separator_char(c: char) -> (separator: bool)
    ensures
        separator == is_separator(c),
{
    c == ' ' || c == '\t' || c == '\n' || c == '\x0C' || c == '\r'
}

impl EGLDevice {
    /// The handle the driver knows the device by.
    pub closed spec fn inner_spec(&self) -> usize {
        self.inner
    }

    /// The names of the extensions the device supports.
    pub closed spec fn extensions_spec(&self) -> Seq<Seq<char>> {
        texts(self.device_extensions@)
    }

    /// The device that the driver reports as `raw`.
    pub fn from_raw(raw: &RawDevice) -> (device: EGLDevice)
        ensures
            device.inner_spec() == raw.handle,
            device.extensions_spec() == words(raw.extensions@),
    {
        EGLDevice {
            inner: raw.handle,
            device_extensions: split_extensions(raw.extensions.as_str()),
        }
    }

    /// Lists the devices of a display, given the extensions of the display
    /// and what asking the driver for its devices gave. Fails if the
    /// display lacks one of the extensions that listing devices takes,
    /// naming the first that is missing; else if the driver failed, with
    /// its error code.
    pub fn enumerate(display_extensions: &Vec<String>, queried: Result<Vec<RawDevice>, u32>) -> (
        listed: Result<Vec<EGLDevice>, Error>
    )
        ensures
            match missing_for_enumeration(texts(display_extensions@)) {
                Some(name) => listed matches Err(Error::EglExtensionNotSupported(missing))
                    && missing@ == name,
                None => match queried {
                    Ok(raw) => listed matches Ok(devices) && devices@.len() == raw@.len()
                        && forall|i: int|
                        0 <= i < raw@.len() ==> {
                            &&& (#[trigger] devices@[i]).inner_spec() == raw@[i].handle
                            &&& devices@[i].extensions_spec() == words(raw@[i].extensions@)
                        },
                    Err(code) => listed matches Err(Error::EnumerateDevices(reported))
                        && reported == code,
                },
            },
    {
        if !has_extension(display_extensions, "EGL_EXT_device_base") {
            return Err(Error::EglExtensionNotSupported(String::from_str("EGL_EXT_device_base")));
        }
        if !has_extension(display_extensions, "EGL_EXT_device_enumeration") {
            return Err(
                Error::EglExtensionNotSupported(String::from_str("EGL_EXT_device_enumeration")),
            );
        }
        if !has_extension(display_extensions, "EGL_EXT_device_query") {
            return Err(Error::EglExtensionNotSupported(String::from_str("EGL_EXT_device_query")));
        }
        match queried {
            Ok(raw) => {
                let mut devices: Vec<EGLDevice> = Vec::new();
                let mut i: usize = 0;
                while i < raw.len()
                    invariant
                        i <= raw.len(),
                        devices@.len() == i,
                        forall|j: int|
                            0 <= j < i ==> {
                                &&& (#[trigger] devices@[j]).inner_spec() == raw@[j].handle
                                &&& devices@[j].extensions_spec() == words(raw@[j].extensions@)
                            },
                    decreases raw.len() - i,
                {
                    devices.push(EGLDevice::from_raw(&raw[i]));
                    i += 1;
                }
                Ok(devices)
            },
            Err(code) => Err(Error::EnumerateDevices(code)),
        }
    }

    /// The names of the extensions the device supports.
    pub fn extensions(&self) -> (names: Vec<String>)
        ensures
            texts(names@) == self.extensions_spec(),
    {
        let mut names: Vec<String> = Vec::new();
        let mut i: usize = 0;
        while i < self.device_extensions.len()
            invariant
                i <= self.device_extensions.len(),
                texts(names@) == texts(self.device_extensions@).take(i as int),
            decreases self.device_extensions.len() - i,
        {
            let ghost before = texts(names@);
            let name = self.device_extensions[i].clone();
            assert(name@ == self.device_extensions@[i as int]@);
            names.push(name);
            assert(texts(names@) =~= before.push(name@));
            i += 1;
            assert(texts(names@) =~= texts(self.device_extensions@).take(i as int));
        }
        assert(texts(names@) =~= texts(self.device_extensions@));
        names
    }

    /// The path of the device file, given what the driver reports for it.
    /// Fails if the device does not support `EGL_EXT_device_drm`; the
    /// driver is only to be asked if it does.
    pub fn drm_device_path(&self, reported: &str) -> (path: Result<String, Error>)
        ensures
            match path {
                Ok(found) => lists(self.extensions_spec(), "EGL_EXT_device_drm"@) && found@
                    == reported@,
                Err(Error::EglExtensionNotSupported(missing)) => !lists(
                    self.extensions_spec(),
                    "EGL_EXT_device_drm"@,
                ) && missing@ == "EGL_EXT_device_drm"@,
                Err(_) => false,
            },
    {
        if !has_extension(&self.device_extensions, "EGL_EXT_device_drm") {
            Err(Error::EglExtensionNotSupported(String::from_str("EGL_EXT_device_drm")))
        } else {
            Ok(String::from_str(reported))
        }
    }

    /// The handle the driver knows the device by.
    pub fn inner(&self) -> (handle: usize)
        ensures
            handle == self.inner_spec(),
    {
        self.inner
    }
}

} // verus!
