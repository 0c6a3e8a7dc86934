//! The token: how it is kept, shown, taken over and tried; the preferences; and the log.

use vstd::prelude::*;

use crate::applog::{len, lines_of, snapshot, writer, GuiWriter};
use crate::auth::{
    delete_token, load_token, redact, save_token, Deletion, TokenStore,
};
use crate::config::{Config, NoiseMode};
use crate::json::Json;
use crate::text::{decimal, joined, lossy_text, lower_text, trimmed};
use crate::token_import::{
    aes256_gcm_open, base64_bytes, decrypt_token, extract_candidates, first_groups, is_storage_file,
    open_blob, opened, protected_key, scan_storage, scan_text, storage_key, tokens_in,
    tokens_in_all, tokens_in_storages, unique, Storage,
};
use crate::ui::login::{
    entered_token, import_failure, login_step, token_source, LoginStep, TokenSource,
};

verus! {

/// What may be logged of a token: nothing of one of up to eight characters, and otherwise its
/// first four and how many more there are.
pub proof fn law_redaction(token: &str, r: String)
    requires
        call_ensures(redact, (token,), r),
    ensures
        token@.len() <= 8 ==> r@ == "***"@,
        token@.len() > 8 ==> r@ == token@.take(4) + ("…(+"@ + decimal((token@.len() - 4) as nat)
            + " car. ocultos)"@),
{
}

/// The token that is found is the keychain's, or else the one in the file, without the white
/// space around it.
pub proof fn law_token_is_found(
    kept: String,
    file: &str,
    a: Option<String>,
    b: Option<String>,
    c: Option<String>,
)
    requires
        call_ensures(load_token, (Some(kept), Some(file)), a),
        call_ensures(load_token, (None, Some(file)), b),
        call_ensures(load_token, (None, None), c),
    ensures
        a is Some && a->Some_0@ == kept@,
        trimmed(file@).len() > 0 ==> b is Some && b->Some_0@ == trimmed(file@),
        trimmed(file@).len() == 0 ==> b is None,
        c is None,
{
}

/// The token goes to the file only where the keychain did not take it; and it is deleted only
/// where neither place failed.
pub proof fn law_token_is_kept(
    took: bool,
    r: TokenStore,
    keychain: Deletion,
    file: Deletion,
    deleted: Result<(), TokenStore>,
)
    requires
        call_ensures(save_token, (took,), r),
        call_ensures(delete_token, (keychain, file), deleted),
    ensures
        took <==> r is Keychain,
        deleted is Ok <==> !(keychain is Failed) && !(file is Failed),
        deleted is Err ==> (deleted->Err_0 is Keychain <==> keychain is Failed),
{
}

/// A token that was kept comes first, then one from the environment that is not blank; without
/// either the user is asked.
pub proof fn law_where_the_token_comes_from(
    kept: String,
    environment: &str,
    a: TokenSource,
    b: TokenSource,
    c: TokenSource,
    entered: Option<String>,
)
    requires
        call_ensures(token_source, (Some(kept), Some(environment)), a),
        call_ensures(token_source, (None, Some(environment)), b),
        call_ensures(token_source, (None, None), c),
        call_ensures(entered_token, (Some(environment),), entered),
    ensures
        a is Stored && a->Stored_0@ == kept@,
        trimmed(environment@).len() > 0 ==> b is Environment && b->Environment_0@ == trimmed(
            environment@,
        ),
        trimmed(environment@).len() == 0 ==> b is Ask,
        c is Ask,
        trimmed(environment@).len() > 0 ==> entered is Some && entered->Some_0@ == trimmed(
            environment@,
        ),
        trimmed(environment@).len() == 0 ==> entered is None,
{
}

/// A token is accepted where the server took it, as it was tried, and only there.
pub proof fn law_login(token: String, error: String, good: LoginStep, bad: LoginStep)
    requires
        call_ensures(login_step, (token, Ok(())), good),
        call_ensures(login_step, (token, Err(error)), bad),
    ensures
        good is Accept,
        good->Accept_0@ == token@,
        bad is Show,
        crate::text::holds(error@, "401"@) ==> bad->Show_0@ == "Token inválido o expirado."@,
        !crate::text::holds(error@, "401"@) ==> bad->Show_0@ == "Error de red/API: "@ + error@,
{
}

/// A blob: three bytes of a version, twelve of a nonce, and what is encrypted; the token is the
/// text of what opens.
pub proof fn law_blobs(
    blob: &[u8],
    key: &[u8],
    r: Option<String>,
    version: Seq<u8>,
    nonce: Seq<u8>,
    sealed: Seq<u8>,
)
    requires
        key@.len() == 32,
        call_ensures(open_blob, (blob, key), r),
        version.len() == 3,
        nonce.len() == 12,
        blob@ == version + nonce + sealed,
    ensures
        sealed.len() < 16 ==> r is None,
        sealed.len() >= 16 ==> match aes256_gcm_open(key@, nonce, sealed) {
            Some(plain) => if vstd::utf8::valid_utf8(plain) {
                r is Some && r->Some_0@ == vstd::utf8::decode_utf8(plain)
            } else {
                r is None
            },
            None => r is None,
        },
{
    assert(blob@.subrange(3, 15) =~= nonce);
    assert(blob@.skip(15) =~= sealed);
}

/// An encrypted token is a blob in base64.
pub proof fn law_encrypted_tokens(
    text: &str,
    key: &[u8],
    r: Option<String>,
    blob: &[u8],
    from_blob: Option<String>,
)
    requires
        key@.len() == 32,
        call_ensures(decrypt_token, (text, key), r),
        call_ensures(open_blob, (blob, key), from_blob),
    ensures
        base64_bytes(text@) is None ==> r is None,
        base64_bytes(text@) == Some(blob@) ==> (r is Some <==> from_blob is Some),
        base64_bytes(text@) == Some(blob@) && r is Some ==> r->Some_0@ == from_blob->Some_0@,
{
}

/// The protected key is what follows the word `DPAPI` in the base64 under `os_crypt` and
/// `encrypted_key`, and nothing else is one.
pub proof fn law_protected_keys(state: &Json, r: Option<Vec<u8>>, text: Seq<char>, key: Seq<u8>)
    requires
        call_ensures(protected_key, (state,), r),
        state@.field("os_crypt"@) is Some,
        state@.field("os_crypt"@)->Some_0.text_field("encrypted_key"@) == Some(text),
    ensures
        key.len() > 0 && base64_bytes(text) == Some(
            seq![68u8, 80u8, 65u8, 80u8, 73u8] + key,
        ) ==> r is Some && r->Some_0@ == key,
        base64_bytes(text) is None ==> r is None,
        r is Some ==> base64_bytes(text) == Some(
            seq![68u8, 80u8, 65u8, 80u8, 73u8] + r->Some_0@,
        ),
{
    if key.len() > 0 && base64_bytes(text) == Some(seq![68u8, 80u8, 65u8, 80u8, 73u8] + key) {
        let raw = seq![68u8, 80u8, 65u8, 80u8, 73u8] + key;
        assert(raw.take(5) =~= seq![68u8, 80u8, 65u8, 80u8, 73u8]);
        assert(raw.skip(5) =~= key);
    }
    if r is Some {
        let raw = base64_bytes(text)->Some_0;
        assert(raw =~= raw.take(5) + raw.skip(5));
    }
}

/// The tokens of a file: with a key, each encrypted one that opens, in order; then those in the
/// clear, of either form.
pub proof fn law_tokens_of_a_file(
    text: Seq<char>,
    key: Seq<u8>,
    list: Seq<Seq<char>>,
    b64: Seq<char>,
)
    ensures
        tokens_in(text, None) == first_groups(
            "([A-Za-z0-9_-]{23,28}\\.[A-Za-z0-9_-]{6,7}\\.[A-Za-z0-9_-]{27,})"@,
            text,
        ) + first_groups("(mfa\\.[A-Za-z0-9_-]{80,})"@, text),
        tokens_in(text, Some(key)) == opened(
            first_groups("dQw4w9WgXcQ:([A-Za-z0-9+/=]+)"@, text),
            key,
        ) + tokens_in(text, None),
        opened(Seq::empty(), key) == Seq::<Seq<char>>::empty(),
        match crate::token_import::token_in_text(b64, key) {
            Some(token) => opened(list.push(b64), key) == opened(list, key).push(token),
            None => opened(list.push(b64), key) == opened(list, key),
        },
{
    let plain = first_groups(
        "([A-Za-z0-9_-]{23,28}\\.[A-Za-z0-9_-]{6,7}\\.[A-Za-z0-9_-]{27,})"@,
        text,
    );
    let mfa = first_groups("(mfa\\.[A-Za-z0-9_-]{80,})"@, text);
    let none = Seq::<Seq<char>>::empty();
    assert(none + plain + mfa =~= plain + mfa);
    assert(tokens_in(text, Some(key)) =~= opened(
        first_groups("dQw4w9WgXcQ:([A-Za-z0-9+/=]+)"@, text),
        key,
    ) + (plain + mfa));
    assert(list.push(b64).drop_last() =~= list);
}

/// The tokens of several files, and of several storages, are those of each, one after the
/// other, each storage with its own key.
pub proof fn law_tokens_of_storages(
    files: Seq<Seq<u8>>,
    file: Seq<u8>,
    key: Option<Seq<u8>>,
    list: Seq<Storage>,
    s: Storage,
)
    ensures
        tokens_in_all(Seq::empty(), key) == Seq::<Seq<char>>::empty(),
        tokens_in_all(files.push(file), key) == tokens_in_all(files, key) + tokens_in(
            lossy_text(file),
            key,
        ),
        tokens_in_storages(Seq::empty()) == Seq::<Seq<char>>::empty(),
        tokens_in_storages(list.push(s)) == tokens_in_storages(list) + tokens_in_all(
            s.files@.map_values(|f: Vec<u8>| f@),
            storage_key(s),
        ),
        s.key is Some ==> storage_key(s) == Some(s.key->Some_0@),
        s.key is None ==> storage_key(s) is None,
{
    assert(files.push(file).drop_last() =~= files);
    assert(list.push(s).drop_last() =~= list);
}

/// Every token that was found is offered, once, and nothing else is.
pub proof fn law_candidates(
    storages: &Vec<Storage>,
    r: Vec<String>,
    token: Seq<char>,
    i: int,
    j: int,
)
    requires
        call_ensures(extract_candidates, (storages,), r),
    ensures
        tokens_in_storages(storages@).contains(token) ==> exists|k: int|
            0 <= k < r@.len() && (#[trigger] r@[k])@ == token,
        0 <= i < r@.len() ==> tokens_in_storages(storages@).contains(r@[i]@),
        0 <= i < j < r@.len() ==> r@[i]@ != r@[j]@,
{
    let all = tokens_in_storages(storages@);
    crate::token_import::lemma_unique(all);
    let out = r@.map_values(|s: String| s@);
    assert(out == unique(all));
    assert(out.len() == r@.len());
    if all.contains(token) {
        assert(unique(all).contains(token));
        let k = choose|k: int| 0 <= k < out.len() && out[k] == token;
        assert(r@[k]@ == token);
    }
    if 0 <= i < r@.len() {
        assert(out[i] == r@[i]@);
        assert(unique(all).contains(out[i]));
    }
    if 0 <= i < j < r@.len() {
        assert(out[i] == r@[i]@ && out[j] == r@[j]@);
    }
}

/// Where a token comes first is where it stays: what is found later stands behind.
pub proof fn law_first_found_first(list: Seq<Seq<char>>, token: Seq<char>)
    ensures
        list.contains(token) ==> unique(list.push(token)) == unique(list),
        !list.contains(token) ==> unique(list.push(token)) == unique(list).push(token),
{
    assert(list.push(token).drop_last() =~= list);
    crate::token_import::lemma_unique(list);
    assert(unique(list).contains(token) == list.contains(token));
}

/// Following and giving up: what is followed is in the list once, what is given up is not, and
/// the others stay.
pub proof fn law_follow_and_unfollow(
    cfg: &mut Config,
    id: String,
    done: (),
    again: &mut Config,
    text: &str,
    gone: (),
    other: Seq<char>,
)
    requires
        call_ensures(Config::follow, (cfg, id), done),
        *old(again) == *final(cfg),
        text@ == id@,
        call_ensures(Config::unfollow, (again, text), gone),
    ensures
        final(cfg).followed().contains(id@),
        old(cfg).followed().contains(id@) ==> final(cfg).followed() == old(cfg).followed(),
        !old(cfg).followed().contains(id@) ==> final(cfg).followed() == old(cfg).followed().push(
            id@,
        ),
        !old(cfg).followed().contains(id@) ==> final(again).followed() == old(cfg).followed(),
        !final(again).followed().contains(id@),
        other != id@ ==> (final(again).followed().contains(other) == old(cfg).followed().contains(
            other,
        )),
        final(again).last_channel is Some ==> final(again).last_channel->Some_0@ != id@,
{
    crate::config::lemma_follow(old(cfg).followed(), id@);
    crate::config::lemma_without_text(final(cfg).followed(), id@);
    if other != id@ {
        let list = old(cfg).followed();
        if list.contains(other) {
            let k = choose|k: int| 0 <= k < list.len() && list[k] == other;
            assert(final(cfg).followed()[k] == other);
        }
        let now = final(cfg).followed();
        if now.contains(other) {
            let k = choose|k: int| 0 <= k < now.len() && now[k] == other;
            assert(k < list.len());
            assert(list[k] == other);
        }
    }
}

/// Before the user sets anything: nothing followed, a hundred messages a channel, full volume,
/// the strongest way against noise, the ducker against echo, and no canceller.
pub proof fn law_preferences_at_the_start(cfg: Config)
    requires
        call_ensures(Config::initial, (), cfg),
    ensures
        cfg.followed_channels@.len() == 0,
        cfg.last_channel is None,
        cfg.last_voice is None,
        cfg.history_limit == 100,
        cfg.voice.input_volume == 100,
        cfg.voice.output_volume == 100,
        cfg.voice.noise_mode == NoiseMode::VoiceIsolation,
        cfg.voice.echo_suppression,
        !cfg.voice.aec,
        !cfg.voice.auto_gain,
        cfg.voice.auto_sensitivity,
        cfg.voice.sensitivity_db == -60,
        cfg.voice.input_device is None,
        cfg.voice.output_device is None,
{
    assert(cfg.followed().len() == cfg.followed_channels@.len());
    assert(cfg.voice@.input_device == crate::model::option_view(cfg.voice.input_device));
    assert(cfg.voice@.output_device == crate::model::option_view(cfg.voice.output_device));
}

/// The ways against noise and their numbers: none is zero, the light way is one, and everything
/// else is the strongest way.
pub proof fn law_noise_modes(v: u8, r: NoiseMode, mode: NoiseMode, n: u8)
    requires
        call_ensures(NoiseMode::from_u8, (v,), r),
        call_ensures(NoiseMode::as_u8, (mode,), n),
    ensures
        r == NoiseMode::Off <==> v == 0,
        r == NoiseMode::Light <==> v == 1,
        n == 0 <==> mode == NoiseMode::Off,
        n == 1 <==> mode == NoiseMode::Light,
        n == 2 <==> mode == NoiseMode::VoiceIsolation,
{
}

/// A line that is written to the log is its last line; an empty one leaves it as it was; and
/// no more than a thousand are kept.
pub proof fn law_log(log: &mut GuiWriter, data: &[u8], r: usize, line: Seq<char>)
    requires
        call_ensures(GuiWriter::write, (log, data), r),
    ensures
        r == data@.len(),
        old(log)@.len() <= 1000 ==> final(log)@.len() <= 1000,
        vstd::utf8::valid_utf8(data@) && vstd::utf8::decode_utf8(data@) == line.push('\n')
            && line.len() > 0 && !line.contains('\n') && line.last() != '\r' ==> {
            &&& final(log)@.len() > 0
            &&& final(log)@.last() == line
            &&& old(log)@.len() < 1000 ==> final(log)@ == old(log)@.push(line)
        },
        !vstd::utf8::valid_utf8(data@) ==> final(log)@ == old(log)@,
{
    let s = line.push('\n');
    if line.len() > 0 && !line.contains('\n') && line.last() != '\r' {
        assert forall|k: int| 0 <= k < line.len() implies s[k] != '\n' by {
            assert(s[k] == line[k]);
            assert(line.contains(line[k]));
        }
        crate::laws::texts::law_first_char(s, '\n', line.len() as int);
        assert(s.take(line.len() as int) =~= line);
        assert(s.skip(line.len() as int + 1) =~= Seq::<char>::empty());
        assert(lines_of(Seq::<char>::empty()) == Seq::<Seq<char>>::empty());
        assert(lines_of(s) =~= seq![line]);
        assert(old(log)@ + seq![line] =~= old(log)@.push(line));
    }
}

/// What is shown of the log is its lines, one below the other, as many as there are.
pub proof fn law_log_is_shown(log: &GuiWriter, text: String, n: usize, fresh: GuiWriter)
    requires
        call_ensures(snapshot, (log,), text),
        call_ensures(len, (log,), n),
        call_ensures(writer, (), fresh),
    ensures
        n == log@.len(),
        text@ == joined(log@, "\n"@),
        fresh@.len() == 0,
{
}

/// What is found in a text are the tokens in the clear, behind those that open with the key;
/// without a key only the former.
pub proof fn law_scanned_text(
    text: &str,
    key: &[u8],
    with_key: Vec<String>,
    without: Vec<String>,
    i: int,
)
    requires
        key@.len() == 32,
        call_ensures(scan_text, (text, Some(key)), with_key),
        call_ensures(scan_text, (text, None), without),
    ensures
        ({
            let sealed = opened(first_groups("dQw4w9WgXcQ:([A-Za-z0-9+/=]+)"@, text@), key@);
            &&& with_key@.len() == sealed.len() + without@.len()
            &&& 0 <= i < sealed.len() ==> with_key@[i]@ == sealed[i]
            &&& 0 <= i < without@.len() ==> with_key@[sealed.len() + i]@ == without@[i]@
        }),
        without@.map_values(|s: String| s@) == first_groups(
            "([A-Za-z0-9_-]{23,28}\\.[A-Za-z0-9_-]{6,7}\\.[A-Za-z0-9_-]{27,})"@,
            text@,
        ) + first_groups("(mfa\\.[A-Za-z0-9_-]{80,})"@, text@),
{
    law_tokens_of_a_file(text@, key@, Seq::empty(), text@);
    let sealed = opened(first_groups("dQw4w9WgXcQ:([A-Za-z0-9+/=]+)"@, text@), key@);
    let a = with_key@.map_values(|s: String| s@);
    let b = without@.map_values(|s: String| s@);
    assert(a == sealed + b);
    assert(a.len() == with_key@.len() && b.len() == without@.len());
    if 0 <= i < sealed.len() {
        assert(a[i] == with_key@[i]@);
    }
    if 0 <= i < without@.len() {
        assert(a[sealed.len() + i] == with_key@[sealed.len() + i]@);
        assert(b[i] == without@[i]@);
    }
}

/// What is found in a storage of one file is what is found in that file with the storage's key.
pub proof fn law_scanned_storage(storage: &Storage, r: Vec<String>, i: int)
    requires
        storage.files@.len() == 1,
        call_ensures(scan_storage, (storage,), r),
        0 <= i < r@.len(),
    ensures
        ({
            let found = tokens_in(
                lossy_text(storage.files@[0]@),
                match storage.key {
                    Some(key) => Some(key@),
                    None => None,
                },
            );
            r@.len() == found.len() && r@[i]@ == found[i]
        }),
{
    let key = storage_key(*storage);
    let files = storage.files@.map_values(|f: Vec<u8>| f@);
    assert(files =~= Seq::empty().push(storage.files@[0]@));
    law_tokens_of_storages(Seq::empty(), storage.files@[0]@, key, Seq::empty(), *storage);
    let got = r@.map_values(|s: String| s@);
    assert(got =~= tokens_in(lossy_text(storage.files@[0]@), key));
    assert(got[i] == r@[i]@);
}

/// The files of a storage that are looked at are those of two kinds, whatever the case of their
/// extensions.
pub proof fn law_storage_files(extension: &str, r: bool)
    requires
        call_ensures(is_storage_file, (extension,), r),
    ensures
        r <==> lower_text(extension@) == "ldb"@ || lower_text(extension@) == "log"@,
{
}

/// Following and giving up leave everything else, and giving up a channel leaves another one
/// that was open last.
pub proof fn law_following_leaves_the_rest(
    a: &mut Config,
    id: String,
    da: (),
    b: &mut Config,
    text: &str,
    db: (),
)
    requires
        call_ensures(Config::follow, (a, id), da),
        call_ensures(Config::unfollow, (b, text), db),
    ensures
        final(a).last_channel == old(a).last_channel,
        final(a).last_voice == old(a).last_voice,
        final(a).history_limit == old(a).history_limit,
        final(a).voice == old(a).voice,
        final(b).last_voice == old(b).last_voice,
        final(b).history_limit == old(b).history_limit,
        final(b).voice == old(b).voice,
        old(b).last_channel is Some && old(b).last_channel->Some_0@ != text@ ==> final(
            b).last_channel is Some && final(b).last_channel->Some_0@
            == old(b).last_channel->Some_0@,
        old(b).last_channel is None ==> final(b).last_channel is None,
{
}

/// Without the names under which it is kept there is no protected key.
pub proof fn law_no_protected_key(state: &Json, r: Option<Vec<u8>>)
    requires
        call_ensures(protected_key, (state,), r),
        state@.field("os_crypt"@) is None || state@.field("os_crypt"@)->Some_0.text_field(
            "encrypted_key"@,
        ) is None,
    ensures
        r is None,
{
}

/// The lines of a text: what comes before a line feed, without the carriage return in front of
/// it, is a line unless it is empty; the rest is read in the same way, and what has no line feed
/// is a line of its own.
pub proof fn law_lines(line: Seq<char>, rest: Seq<char>)
    requires
        !line.contains('\n'),
    ensures
        line.len() > 0 ==> lines_of(line) == seq![line],
        line.len() > 0 && line.last() != '\r' ==> lines_of(line + seq!['\n'] + rest) == seq![line]
            + lines_of(rest),
        line.len() > 0 && line.last() != '\r' ==> lines_of(line + seq!['\r', '\n'] + rest)
            == seq![line] + lines_of(rest),
        lines_of(seq!['\n'] + rest) == lines_of(rest),
{
    lemma_line(line, line.len() as int);
    if line.len() > 0 && line.last() != '\r' {
        let s = line + seq!['\n'] + rest;
        let n = line.len() as int;
        assert forall|k: int| 0 <= k < n implies s[k] != '\n' by {
            assert(s[k] == line[k]);
            assert(line.contains(line[k]));
        }
        crate::laws::texts::law_first_char(s, '\n', n);
        assert(s.take(n) =~= line);
        assert(s.skip(n + 1) =~= rest);
        let t = line + seq!['\r', '\n'] + rest;
        assert forall|k: int| 0 <= k < n + 1 implies t[k] != '\n' by {
            if k < n {
                assert(t[k] == line[k]);
                assert(line.contains(line[k]));
            }
        }
        crate::laws::texts::law_first_char(t, '\n', n + 1);
        assert(t.take(n + 1) =~= line.push('\r'));
        assert(line.push('\r').drop_last() =~= line);
        assert(t.skip(n + 2) =~= rest);
    }
    let e = seq!['\n'] + rest;
    crate::laws::texts::law_first_char(e, '\n', 0);
    assert(e.take(0).len() == 0);
    assert(e.skip(1) =~= rest);
}

proof fn lemma_line(line: Seq<char>, n: int)
    requires
        !line.contains('\n'),
        n == line.len(),
    ensures
        line.len() > 0 ==> lines_of(line) == seq![line],
{
    assert forall|k: int| 0 <= k < n implies line[k] != '\n' by {
        assert(line.contains(line[k]));
    }
    crate::laws::texts::law_first_char(line, '\n', n);
}

/// What is written to a log is at its end, line by line, while it has room; of a log that is
/// full the oldest lines go, as many as come.
pub proof fn law_log_is_written(log: &mut GuiWriter, data: &[u8], r: usize)
    requires
        call_ensures(GuiWriter::write, (log, data), r),
        vstd::utf8::valid_utf8(data@),
    ensures
        ({
            let new = lines_of(vstd::utf8::decode_utf8(data@));
            let total = old(log)@ + new;
            &&& total.len() <= 1000 ==> final(log)@ == total
            &&& total.len() > 1000 ==> final(log)@ == total.skip(total.len() - 1000)
        }),
{
    let total = old(log)@ + lines_of(vstd::utf8::decode_utf8(data@));
    if total.len() > 1000 {
        assert(final(log)@ =~= total.skip(total.len() - 1000));
    } else {
        assert(final(log)@ =~= total);
    }
}

/// The user is told whether there was no token to take over, or none that was good.
pub proof fn law_failed_imports(found: usize, r: &'static str)
    requires
        call_ensures(import_failure, (found,), r),
    ensures
        found == 0 ==> r@ == "No se encontró token local (¿Discord instalado y con sesión?)."@,
        found > 0 ==> r@
            == "Se encontró token pero no validó (¿expiró? abre Discord e inténtalo)."@,
{
}

} // verus!
