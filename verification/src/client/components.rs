//! The HTML of the navigation bar and of a post.
use crate::client::views::{AccountInfo, AccountInfoData, PostView, PostViewData};
use crate::text::{decimal, push_decimal};
use vstd::prelude::*;
use vstd::string::StringExecFns;

verus! {

// The fixed pieces of the HTML, in the order they appear.
pub const LOGIN_LINK: &'static str = "\n            <a href=\"/login\" class=\"login-link-component-wrapper\">\n                <img src=\"/assets/imgs/profile.jpeg\" class=\"post-component-account-info-image\">\n                <div class=\"login-link-component-text\">Login/Register</div>\n            </a>\n            ";

pub const MENU_0: &'static str = "\n                <a href=\"/timeline\" class=\"nav-bar-menu-element\">\n                    <img src=\"/assets/imgs/clock.svg\" class=\"nav-bar-menu-element-logo\"> <div class=\"nav-bar-menu-element-text\">Timeline</div>\n                </a>\n                <a href=\"/profile/";

pub const MENU_1: &'static str = "\" class=\"nav-bar-menu-element\">\n                    <img src=\"/assets/imgs/User.svg\" class=\"nav-bar-menu-element-logo\"> <div class=\"nav-bar-menu-element-text\">Profile</div>\n                </a>";

pub const BALANCE_0: &'static str = "\n            <div class=\"nav-bar-balance\">\n                <img src=\"/assets/imgs/money.svg\" class=\"nav-bar-balance-logo\"> <div class=\"nav-bar-balance-value\">";

pub const BALANCE_1: &'static str = "</div>\n            </div>\n            <a href=\"/login\" class=\"login-link-component-wrapper\">\n                <img src=\"";

pub const BALANCE_2: &'static str = "\" class=\"post-component-account-info-image\">\n                <div class=\"login-link-component-text\">";

pub const BALANCE_3: &'static str = "</div>\n            </a>\n            ";

pub const NAV_0: &'static str = "\n        <div class=\"nav-bar\">\n            <a href=\"/\" class=\"nav-bar-header\">\n                <img src=\"/assets/imgs/logo.png\">\n            </a>\n            <div>Censorship resistant blogging platform</div>\n            <div class=\"insecure-notice\">Warning! Current version is a prototype and not secure.</div>\n            <div class=\"nav-bar-menu\">\n                <a href=\"/\" class=\"nav-bar-menu-element\">\n                    <img src=\"/assets/imgs/explore.svg\" class=\"nav-bar-menu-element-logo\"> <div class=\"nav-bar-menu-element-text\">Explore</div>\n                </a>\n                ";

pub const NAV_1: &'static str = "\n                <a href=\"https://github.com/shravanshetty1/blawgd\" class=\"nav-bar-menu-element\">\n                    <img src=\"/assets/imgs/about.svg\" class=\"nav-bar-menu-element-logo\"> <div class=\"nav-bar-menu-element-text\">About</div>\n                </a>\n\n            </div>\n            ";

pub const NAV_2: &'static str = "\n        </div>";

pub const REPLY_0: &'static str = "<a href=\"/post/";

pub const REPLY_1: &'static str = "\" class=\"post-component-header\">Replying to post ";

pub const REPLY_2: &'static str = "</a>";

pub const REPOSTED_0: &'static str = "<a href=\"/profile/";

pub const REPOSTED_1: &'static str = "\" class=\"post-component-header\">Reposted by ";

pub const REPOSTED_2: &'static str = "</a>";

pub const POST_0: &'static str = "\n            <div class=\"post-component\">\n                ";

pub const POST_1: &'static str = "\n                <div class=\"post-component-text-wrapper\">\n                    <a href=\"/profile/";

pub const POST_2: &'static str = "\"><img src=\"";

pub const POST_3: &'static str = "\" class=\"post-component-account-info-image\"></a>\n                    <div class=\"post-component-text-content\">\n                        <div class=\"post-component-account-info\">\n                            <a href=\"/profile/";

pub const POST_4: &'static str = "\" class=\"post-component-account-info-name\">";

pub const POST_5: &'static str = "</a>\n                            <div class=\"post-component-account-info-address\">@";

pub const POST_6: &'static str = "</div>\n                        </div>\n                        <div class=\"";

pub const POST_7: &'static str = "\">\n                            ";

pub const POST_8: &'static str = "\n                        </div>\n                    </div>\n                </div>\n                <div class=\"post-component-bar\">\n                    <div id=\"post-";

pub const POST_9: &'static str = "-like\" class=\"post-component-bar-button\">\n                        <img src=\"/assets/imgs/like.svg\" class=\"post-component-bar-button-logo\">\n                        <div id=\"post-";

pub const POST_10: &'static str = "-like-content\" class=\"post-component-bar-button-content\">";

pub const POST_11: &'static str = "</div>\n                    </div>\n                    <div id=\"post-";

pub const POST_12: &'static str = "-repost\" class=\"post-component-bar-button\">\n                        <img src=\"/assets/imgs/Repost.svg\" class=\"post-component-bar-button-logo\">\n                        <div id=\"post-";

pub const POST_13: &'static str = "-repost-content\" class=\"post-component-bar-button-content\">";

pub const POST_14: &'static str = "</div>\n                    </div>\n                    <a href=\"/post/";

pub const POST_15: &'static str = "\" class=\"post-component-bar-button\">\n                        <img src=\"/assets/imgs/Comment.svg\" class=\"post-component-bar-button-logo\">\n                        <div class=\"post-component-bar-button-content\">";

pub const POST_16: &'static str = "</div>\n                    </a>\n                </div>\n            </div>\n        ";


/// The account a user is logged in as, and its balance.
#[derive(Debug)]
pub struct SessionInfo {
    pub account_info: AccountInfo,
    pub balance: u64,
}

/// The content of a [`SessionInfo`].
pub struct SessionData {
    pub account_info: AccountInfoData,
    pub balance: u64,
}

impl View for SessionInfo {
    type V = SessionData;

    open spec fn view(&self) -> SessionData {
        SessionData { account_info: self.account_info@, balance: self.balance }
    }
}

impl Clone for SessionInfo {
    fn clone(&self) -> (s: Self)
        ensures
            s@ == self@,
    {
        SessionInfo { account_info: self.account_info.clone(), balance: self.balance }
    }
}

/// The navigation bar, for a logged-in user or for a visitor.
#[derive(Debug)]
pub struct NavBar {
    session: Option<SessionInfo>,
}

impl View for NavBar {
    type V = Option<SessionData>;

    closed spec fn view(&self) -> Option<SessionData> {
        match &self.session {
            None => None,
            Some(s) => Some(s@),
        }
    }
}

/// The HTML of the navigation bar: the site's menu, with the timeline and
/// the user's profile for a logged-in user, and a login link, which for a
/// logged-in user shows their balance, picture and name (the address when
/// the name is empty).
pub open spec fn nav_bar_html(session: Option<SessionData>) -> Seq<char> {
    let (menu, login) = match session {
        None => (Seq::empty(), LOGIN_LINK@),
        Some(s) => {
            let a = s.account_info;
            let text = if a.name.len() == 0 {
                a.address
            } else {
                a.name
            };
            (
                MENU_0@ + a.address + MENU_1@,
                BALANCE_0@ + decimal(s.balance as nat) + BALANCE_1@ + a.photo + BALANCE_2@ + text
                    + BALANCE_3@,
            )
        },
    };
    NAV_0@ + menu + NAV_1@ + login + NAV_2@
}

impl NavBar {
    pub fn new(session: Option<SessionInfo>) -> (b: Box<NavBar>)
        ensures
            b@ == (match session {
                None => None,
                Some(s) => Some(s@),
            }),
    {
        Box::new(NavBar { session })
    }

    /// The HTML of the bar; see [`nav_bar_html`].
    pub fn to_html(&self) -> (html: String)
        ensures
            html@ == nav_bar_html(self@),
    {
        let mut menu = String::new();
        let mut login = String::from_str(LOGIN_LINK);
        match &self.session {
            None => {},
            Some(s) => {
                let a = &s.account_info;
                menu.append(MENU_0);
                menu.append(a.address.as_str());
                menu.append(MENU_1);
                let text = if a.name.as_str().is_empty() {
                    a.address.as_str()
                } else {
                    a.name.as_str()
                };
                login = String::from_str(BALANCE_0);
                push_decimal(&mut login, s.balance as u128);
                login.append(BALANCE_1);
                login.append(a.photo.as_str());
                login.append(BALANCE_2);
                login.append(text);
                login.append(BALANCE_3);
            },
        }
        let mut html = String::from_str(NAV_0);
        html.append(menu.as_str());
        html.append(NAV_1);
        html.append(login.as_str());
        html.append(NAV_2);
        html
    }
}

/// A post on a page, shown plain or in focus (the post a page is about).
#[derive(Debug)]
pub struct PostComponent {
    pub post: PostView,
    pub focus: bool,
}

impl PostComponent {
    pub fn new(post: PostView) -> (c: Box<PostComponent>)
        ensures
            c.post@ == post@,
            !c.focus,
    {
        Box::new(PostComponent { post, focus: false })
    }

    /// Shows the post in focus.
    pub fn focus(&mut self)
        ensures
            final(self).post@ == old(self).post@,
            final(self).focus,
    {
        self.focus = true;
    }
}

/// Whether a post can be shown: it has an author, and so has the post it
/// repeats.
pub open spec fn post_showable(p: PostViewData) -> bool {
    p.post.creator is Some && (p.repost_parent matches Some(r) ==> r.creator is Some)
}

/// The HTML of a shown post. Its header says which post it answers, if
/// any; a repost's header first names who reposted, and the repost shows
/// the repeated post's author and text with the repost's own counts and id.
pub open spec fn post_html(p: PostViewData, focus: bool) -> Seq<char> {
    let reply = if p.post.parent_post.len() == 0 {
        Seq::empty()
    } else {
        REPLY_0@ + p.post.parent_post + REPLY_1@ + p.post.parent_post + REPLY_2@
    };
    let own = p.post.creator->Some_0;
    let (header, author, content) = match p.repost_parent {
        None => (reply, own, p.post.content),
        Some(r) => (
            REPOSTED_0@ + own.address + REPOSTED_1@ + own.name + REPOSTED_2@ + reply,
            r.creator->Some_0,
            r.content,
        ),
    };
    let class = if focus {
        "post-component-text-focus"@
    } else {
        "post-component-text"@
    };
    let id = p.post.id;
    POST_0@ + header + POST_1@ + author.address + POST_2@ + author.photo + POST_3@ + author.address
        + POST_4@ + author.name + POST_5@ + author.address + POST_6@ + class + POST_7@ + content
        + POST_8@ + id + POST_9@ + id + POST_10@ + decimal(p.post.like_count as nat) + POST_11@ + id
        + POST_12@ + id + POST_13@ + decimal(p.post.repost_count as nat) + POST_14@ + id + POST_15@
        + decimal(p.post.comments_count as nat) + POST_16@
}

impl PostComponent {
    /// The HTML of the post; see [`post_html`].
    pub fn to_html(&self) -> (html: String)
        requires
            post_showable(self.post@),
        ensures
            html@ == post_html(self.post@, self.focus),
    {
        let post = &self.post;
        let own = match &post.creator {
            Some(a) => a,
            None => {
                proof {
                    assert(false);
                }
                return String::new();
            },
        };
        let mut header = String::new();
        if !post.parent_post.as_str().is_empty() {
            header.append(REPLY_0);
            header.append(post.parent_post.as_str());
            header.append(REPLY_1);
            header.append(post.parent_post.as_str());
            header.append(REPLY_2);
        }
        let mut author = own;
        let mut content = post.content.as_str();
        match &post.repost_parent {
            None => {},
            Some(r) => {
                let mut h = String::from_str(REPOSTED_0);
                h.append(own.address.as_str());
                h.append(REPOSTED_1);
                h.append(own.name.as_str());
                h.append(REPOSTED_2);
                h.append(header.as_str());
                header = h;
                content = r.content.as_str();
                author = match &r.creator {
                    Some(a) => a,
                    None => {
                        proof {
                            assert(false);
                        }
                        return String::new();
                    },
                };
            },
        }
        let class = if self.focus {
            "post-component-text-focus"
        } else {
            "post-component-text"
        };
        let id = post.id.as_str();
        let mut html = String::from_str(POST_0);
        html.append(header.as_str());
        html.append(POST_1);
        html.append(author.address.as_str());
        html.append(POST_2);
        html.append(author.photo.as_str());
        html.append(POST_3);
        html.append(author.address.as_str());
        html.append(POST_4);
        html.append(author.name.as_str());
        html.append(POST_5);
        html.append(author.address.as_str());
        html.append(POST_6);
        html.append(class);
        html.append(POST_7);
        html.append(content);
        html.append(POST_8);
        html.append(id);
        html.append(POST_9);
        html.append(id);
        html.append(POST_10);
        push_decimal(&mut html, post.like_count as u128);
        html.append(POST_11);
        html.append(id);
        html.append(POST_12);
        html.append(id);
        html.append(POST_13);
        push_decimal(&mut html, post.repost_count as u128);
        html.append(POST_14);
        html.append(id);
        html.append(POST_15);
        push_decimal(&mut html, post.comments_count as u128);
        html.append(POST_16);
        html
    }
}

/// Whether `piece` stands somewhere in `text`.
pub open spec fn shows(text: Seq<char>, piece: Seq<char>) -> bool {
    exists|i: int| 0 <= i && i + piece.len() <= text.len() && #[trigger] text.subrange(i, i + piece.len()) == piece
}

/// What stands between two others stands in the whole.
pub proof fn lemma_shows_middle(a: Seq<char>, b: Seq<char>, c: Seq<char>)
    ensures
        shows(a + b + c, b),
{
    assert((a + b + c).subrange(a.len() as int, (a.len() + b.len()) as int) =~= b);
}

/// The part of a post's HTML that presents its author: the picture linked
/// to the profile, the name linked to the profile, and the address.
pub open spec fn author_block(a: AccountInfoData) -> Seq<char> {
    POST_1@ + a.address + POST_2@ + a.photo + POST_3@ + a.address + POST_4@ + a.name + POST_5@
        + a.address + POST_6@
}

/// A post's HTML presents as its author the creator of the post it shows:
/// for a repost, the reposted post's creator (name, picture and address
/// all of that one), while the header names the reposter; and it shows
/// the post's own like, repost and comment counts.
pub proof fn law_post_shows_its_author(p: PostViewData, focus: bool)
    requires
        post_showable(p),
    ensures
        ({
            let html = post_html(p, focus);
            let own = p.post.creator->Some_0;
            &&& match p.repost_parent {
                None => shows(html, author_block(own)),
                Some(r) => shows(html, author_block(r.creator->Some_0)) && shows(
                    html,
                    REPOSTED_0@ + own.address + REPOSTED_1@ + own.name + REPOSTED_2@,
                ),
            }
            &&& shows(html, POST_10@ + decimal(p.post.like_count as nat) + POST_11@)
            &&& shows(html, POST_13@ + decimal(p.post.repost_count as nat) + POST_14@)
            &&& shows(html, POST_15@ + decimal(p.post.comments_count as nat) + POST_16@)
        }),
{
    let html = post_html(p, focus);
    let reply = if p.post.parent_post.len() == 0 {
        Seq::empty()
    } else {
        REPLY_0@ + p.post.parent_post + REPLY_1@ + p.post.parent_post + REPLY_2@
    };
    let own = p.post.creator->Some_0;
    let (header, author, content) = match p.repost_parent {
        None => (reply, own, p.post.content),
        Some(r) => (
            REPOSTED_0@ + own.address + REPOSTED_1@ + own.name + REPOSTED_2@ + reply,
            r.creator->Some_0,
            r.content,
        ),
    };
    let class = if focus {
        "post-component-text-focus"@
    } else {
        "post-component-text"@
    };
    let id = p.post.id;
    let like = decimal(p.post.like_count as nat);
    let repost = decimal(p.post.repost_count as nat);
    let comments = decimal(p.post.comments_count as nat);
    let n0 = POST_0@;
    let n1 = n0 + header;
    let n2 = n1 + POST_1@;
    let n3 = n2 + author.address;
    let n4 = n3 + POST_2@;
    let n5 = n4 + author.photo;
    let n6 = n5 + POST_3@;
    let n7 = n6 + author.address;
    let n8 = n7 + POST_4@;
    let n9 = n8 + author.name;
    let n10 = n9 + POST_5@;
    let n11 = n10 + author.address;
    let n12 = n11 + POST_6@;
    let n13 = n12 + class;
    let n14 = n13 + POST_7@;
    let n15 = n14 + content;
    let n16 = n15 + POST_8@;
    let n17 = n16 + id;
    let n18 = n17 + POST_9@;
    let n19 = n18 + id;
    let n20 = n19 + POST_10@;
    let n21 = n20 + like;
    let n22 = n21 + POST_11@;
    let n23 = n22 + id;
    let n24 = n23 + POST_12@;
    let n25 = n24 + id;
    let n26 = n25 + POST_13@;
    let n27 = n26 + repost;
    let n28 = n27 + POST_14@;
    let n29 = n28 + id;
    let n30 = n29 + POST_15@;
    let n31 = n30 + comments;
    let n32 = n31 + POST_16@;
    assert(html == n32);
    // blk
    let blk_0 = POST_1@;
    let blk_1 = blk_0 + author.address;
    lemma_concat_assoc(n1, blk_0, author.address);
    assert(n3 == n1 + blk_1);
    let blk_2 = blk_1 + POST_2@;
    lemma_concat_assoc(n1, blk_1, POST_2@);
    assert(n4 == n1 + blk_2);
    let blk_3 = blk_2 + author.photo;
    lemma_concat_assoc(n1, blk_2, author.photo);
    assert(n5 == n1 + blk_3);
    let blk_4 = blk_3 + POST_3@;
    lemma_concat_assoc(n1, blk_3, POST_3@);
    assert(n6 == n1 + blk_4);
    let blk_5 = blk_4 + author.address;
    lemma_concat_assoc(n1, blk_4, author.address);
    assert(n7 == n1 + blk_5);
    let blk_6 = blk_5 + POST_4@;
    lemma_concat_assoc(n1, blk_5, POST_4@);
    assert(n8 == n1 + blk_6);
    let blk_7 = blk_6 + author.name;
    lemma_concat_assoc(n1, blk_6, author.name);
    assert(n9 == n1 + blk_7);
    let blk_8 = blk_7 + POST_5@;
    lemma_concat_assoc(n1, blk_7, POST_5@);
    assert(n10 == n1 + blk_8);
    let blk_9 = blk_8 + author.address;
    lemma_concat_assoc(n1, blk_8, author.address);
    assert(n11 == n1 + blk_9);
    let blk_10 = blk_9 + POST_6@;
    lemma_concat_assoc(n1, blk_9, POST_6@);
    assert(n12 == n1 + blk_10);
    lemma_shows_suffix(n1, blk_10);
    lemma_shows_extend(n12, class, blk_10);
    lemma_shows_extend(n13, POST_7@, blk_10);
    lemma_shows_extend(n14, content, blk_10);
    lemma_shows_extend(n15, POST_8@, blk_10);
    lemma_shows_extend(n16, id, blk_10);
    lemma_shows_extend(n17, POST_9@, blk_10);
    lemma_shows_extend(n18, id, blk_10);
    lemma_shows_extend(n19, POST_10@, blk_10);
    lemma_shows_extend(n20, like, blk_10);
    lemma_shows_extend(n21, POST_11@, blk_10);
    lemma_shows_extend(n22, id, blk_10);
    lemma_shows_extend(n23, POST_12@, blk_10);
    lemma_shows_extend(n24, id, blk_10);
    lemma_shows_extend(n25, POST_13@, blk_10);
    lemma_shows_extend(n26, repost, blk_10);
    lemma_shows_extend(n27, POST_14@, blk_10);
    lemma_shows_extend(n28, id, blk_10);
    lemma_shows_extend(n29, POST_15@, blk_10);
    lemma_shows_extend(n30, comments, blk_10);
    lemma_shows_extend(n31, POST_16@, blk_10);
    assert(blk_10 == author_block(author));
    // lk
    let lk_0 = POST_10@;
    let lk_1 = lk_0 + like;
    lemma_concat_assoc(n19, lk_0, like);
    assert(n21 == n19 + lk_1);
    let lk_2 = lk_1 + POST_11@;
    lemma_concat_assoc(n19, lk_1, POST_11@);
    assert(n22 == n19 + lk_2);
    lemma_shows_suffix(n19, lk_2);
    lemma_shows_extend(n22, id, lk_2);
    lemma_shows_extend(n23, POST_12@, lk_2);
    lemma_shows_extend(n24, id, lk_2);
    lemma_shows_extend(n25, POST_13@, lk_2);
    lemma_shows_extend(n26, repost, lk_2);
    lemma_shows_extend(n27, POST_14@, lk_2);
    lemma_shows_extend(n28, id, lk_2);
    lemma_shows_extend(n29, POST_15@, lk_2);
    lemma_shows_extend(n30, comments, lk_2);
    lemma_shows_extend(n31, POST_16@, lk_2);
    // rp
    let rp_0 = POST_13@;
    let rp_1 = rp_0 + repost;
    lemma_concat_assoc(n25, rp_0, repost);
    assert(n27 == n25 + rp_1);
    let rp_2 = rp_1 + POST_14@;
    lemma_concat_assoc(n25, rp_1, POST_14@);
    assert(n28 == n25 + rp_2);
    lemma_shows_suffix(n25, rp_2);
    lemma_shows_extend(n28, id, rp_2);
    lemma_shows_extend(n29, POST_15@, rp_2);
    lemma_shows_extend(n30, comments, rp_2);
    lemma_shows_extend(n31, POST_16@, rp_2);
    // cm
    let cm_0 = POST_15@;
    let cm_1 = cm_0 + comments;
    lemma_concat_assoc(n29, cm_0, comments);
    assert(n31 == n29 + cm_1);
    let cm_2 = cm_1 + POST_16@;
    lemma_concat_assoc(n29, cm_1, POST_16@);
    assert(n32 == n29 + cm_2);
    lemma_shows_suffix(n29, cm_2);
    // The header of a repost names the reposter.
    if p.repost_parent is Some {
        let named = REPOSTED_0@ + own.address + REPOSTED_1@ + own.name + REPOSTED_2@;
        lemma_shows_prefix(named, reply);
        lemma_shows_right(POST_0@, header, named);
        lemma_shows_extend(n1, POST_1@, named);
        lemma_shows_extend(n2, author.address, named);
        lemma_shows_extend(n3, POST_2@, named);
        lemma_shows_extend(n4, author.photo, named);
        lemma_shows_extend(n5, POST_3@, named);
        lemma_shows_extend(n6, author.address, named);
        lemma_shows_extend(n7, POST_4@, named);
        lemma_shows_extend(n8, author.name, named);
        lemma_shows_extend(n9, POST_5@, named);
        lemma_shows_extend(n10, author.address, named);
        lemma_shows_extend(n11, POST_6@, named);
        lemma_shows_extend(n12, class, named);
        lemma_shows_extend(n13, POST_7@, named);
        lemma_shows_extend(n14, content, named);
        lemma_shows_extend(n15, POST_8@, named);
        lemma_shows_extend(n16, id, named);
        lemma_shows_extend(n17, POST_9@, named);
        lemma_shows_extend(n18, id, named);
        lemma_shows_extend(n19, POST_10@, named);
        lemma_shows_extend(n20, like, named);
        lemma_shows_extend(n21, POST_11@, named);
        lemma_shows_extend(n22, id, named);
        lemma_shows_extend(n23, POST_12@, named);
        lemma_shows_extend(n24, id, named);
        lemma_shows_extend(n25, POST_13@, named);
        lemma_shows_extend(n26, repost, named);
        lemma_shows_extend(n27, POST_14@, named);
        lemma_shows_extend(n28, id, named);
        lemma_shows_extend(n29, POST_15@, named);
        lemma_shows_extend(n30, comments, named);
        lemma_shows_extend(n31, POST_16@, named);
    }
}

/// Joining is associative.
pub proof fn lemma_concat_assoc(a: Seq<char>, b: Seq<char>, c: Seq<char>)
    ensures
        a + b + c == a + (b + c),
{
    assert(a + b + c =~= a + (b + c));
}

/// What stands at the end of a text stands in it.
pub proof fn lemma_shows_suffix(a: Seq<char>, b: Seq<char>)
    ensures
        shows(a + b, b),
{
    assert((a + b).subrange(a.len() as int, (a.len() + b.len()) as int) =~= b);
}

/// What stands at the start of a text stands in it.
pub proof fn lemma_shows_prefix(a: Seq<char>, b: Seq<char>)
    ensures
        shows(a + b, a),
{
    let z: int = 0;
    assert((a + b).subrange(z, z + a.len()) =~= a);
}

/// What stands in a text stands in it when more follows.
pub proof fn lemma_shows_extend(a: Seq<char>, x: Seq<char>, piece: Seq<char>)
    requires
        shows(a, piece),
    ensures
        shows(a + x, piece),
{
    let i = choose|i: int| 0 <= i && i + piece.len() <= a.len() && #[trigger] a.subrange(i, i + piece.len()) == piece;
    assert((a + x).subrange(i, i + piece.len()) =~= a.subrange(i, i + piece.len()));
}

/// What stands in a text stands in it when more precedes.
pub proof fn lemma_shows_right(a: Seq<char>, b: Seq<char>, piece: Seq<char>)
    requires
        shows(b, piece),
    ensures
        shows(a + b, piece),
{
    let i = choose|i: int| 0 <= i && i + piece.len() <= b.len() && #[trigger] b.subrange(i, i + piece.len()) == piece;
    assert((a + b).subrange(a.len() + i, a.len() + i + piece.len()) =~= b.subrange(i, i + piece.len()));
}

/// The navigation bar shows a visitor the login link; for a logged-in user
/// it links their profile, and shows their balance, their picture, and as
/// the login text their name, or their address when the name is empty.
pub proof fn law_nav_bar_shows_the_user(session: Option<SessionData>)
    ensures
        ({
            let html = nav_bar_html(session);
            match session {
                None => shows(html, LOGIN_LINK@),
                Some(s) => {
                    let a = s.account_info;
                    &&& shows(html, MENU_0@ + a.address + MENU_1@)
                    &&& shows(html, BALANCE_0@ + decimal(s.balance as nat) + BALANCE_1@)
                    &&& shows(html, BALANCE_1@ + a.photo + BALANCE_2@)
                    &&& (a.name.len() > 0 ==> shows(html, BALANCE_2@ + a.name + BALANCE_3@))
                    &&& (a.name.len() == 0 ==> shows(html, BALANCE_2@ + a.address + BALANCE_3@))
                }
            }
        }),
{
    let html = nav_bar_html(session);
    match session {
        None => {
            assert(html =~= (NAV_0@ + NAV_1@) + LOGIN_LINK@ + NAV_2@);
            lemma_shows_middle(NAV_0@ + NAV_1@, LOGIN_LINK@, NAV_2@);
        },
        Some(s) => {
            let a = s.account_info;
            let text = if a.name.len() == 0 {
                a.address
            } else {
                a.name
            };
            let bal = decimal(s.balance as nat);
            let menu = MENU_0@ + a.address + MENU_1@;
            let login = BALANCE_0@ + bal + BALANCE_1@ + a.photo + BALANCE_2@ + text + BALANCE_3@;
            assert(html =~= NAV_0@ + menu + (NAV_1@ + login + NAV_2@));
            lemma_shows_middle(NAV_0@, menu, NAV_1@ + login + NAV_2@);
            let pre = NAV_0@ + menu + NAV_1@;
            let p1 = BALANCE_0@ + bal + BALANCE_1@;
            assert(html =~= pre + p1 + (a.photo + BALANCE_2@ + text + BALANCE_3@ + NAV_2@));
            lemma_shows_middle(pre, p1, a.photo + BALANCE_2@ + text + BALANCE_3@ + NAV_2@);
            let p2 = BALANCE_1@ + a.photo + BALANCE_2@;
            assert(html =~= (pre + BALANCE_0@ + bal) + p2 + (text + BALANCE_3@ + NAV_2@));
            lemma_shows_middle(pre + BALANCE_0@ + bal, p2, text + BALANCE_3@ + NAV_2@);
            let p3 = BALANCE_2@ + text + BALANCE_3@;
            assert(html =~= (pre + BALANCE_0@ + bal + BALANCE_1@ + a.photo) + p3 + NAV_2@);
            lemma_shows_middle(pre + BALANCE_0@ + bal + BALANCE_1@ + a.photo, p3, NAV_2@);
        },
    }
}

pub const SEND_PAGE_0: &'static str = "\n<div class=\"page\">\n    <div class=\"page-wrapper\">\n        ";

pub const SEND_PAGE_1: &'static str = "\n        <div id=\"main-column\" class=\"main-column\">\n        <div class=\"send-component\">\n                <div class=\"login-notice\">Please fill the given fields to send coins to someone</div>\n                <div class=\"send-component-inner-wrapper\">\n                    <div class=\"new-account-info\">\n                        <input id=\"address-field\" class=\"account-info-field\" type=\"text\" placeholder=\"Address to send to...\">\n                        <input id=\"amount-field\" class=\"account-info-field\" type=\"text\" placeholder=\"Amount to send...\">\n                    </div>\n                    <div id=\"send\" class=\"button\">Send</div>\n                </div>\n            </div>\n        </div>\n    </div>\n</div>\n";

/// The HTML of the page for sending coins, around the navigation bar's.
pub open spec fn send_page_html(nav_bar: Seq<char>) -> Seq<char> {
    SEND_PAGE_0@ + nav_bar + SEND_PAGE_1@
}

/// The HTML of the page for sending coins; see [`send_page_html`].
pub fn send_page_to_html(nav_bar_html: &str) -> (html: String)
    ensures
        html@ == send_page_html(nav_bar_html@),
{
    let mut html = String::from_str(SEND_PAGE_0);
    html.append(nav_bar_html);
    html.append(SEND_PAGE_1);
    html
}

} // verus!
